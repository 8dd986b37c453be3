//! The roster: the artists that are watched.
//!
//! Artists are told apart by their identifier and listed by name.

use vstd::prelude::*;
use crate::arrange::{Arrangement, arrange, is_arrangement, views};
use crate::rank::Rank;
use crate::resolve::{Artist, ArtistView};
use crate::text::{
    lemma_text_rank_flip, lemma_text_rank_transitive, mentions, rank_str, same_text, text_le,
    text_mentions,
};

verus! {

/// Order of artists by name.
pub struct ByName;

impl Arrangement<Artist> for ByName {
    open spec fn le(a: ArtistView, b: ArtistView) -> bool {
        text_le(a.name, b.name)
    }

    proof fn lemma_total(a: ArtistView, b: ArtistView) {
        lemma_text_rank_flip(a.name, b.name);
    }

    proof fn lemma_transitive(a: ArtistView, b: ArtistView, c: ArtistView) {
        lemma_text_rank_transitive(a.name, b.name, c.name);
    }

    fn precedes(a: &Artist, b: &Artist) -> (r: bool) {
        rank_str(a.name.as_str(), b.name.as_str()) != Rank::After
    }
}

/// Some artist of `s` has the identifier `id`.
pub open spec fn knows_id(s: Seq<ArtistView>, id: u128) -> bool {
    exists|k: int| 0 <= k < s.len() && (#[trigger] s[k]).id == id
}

/// Some artist of `s` has the name `name`.
pub open spec fn knows_name(s: Seq<ArtistView>, name: Seq<char>) -> bool {
    exists|k: int| 0 <= k < s.len() && (#[trigger] s[k]).name == name
}

/// `i` is the position of the first artist of `s` with the name `name`.
pub open spec fn is_first_named(s: Seq<ArtistView>, name: Seq<char>, i: int) -> bool {
    &&& 0 <= i < s.len()
    &&& s[i].name == name
    &&& forall|j: int| 0 <= j < i ==> (#[trigger] s[j]).name != name
}

/// The names of `names` that no artist of `known` bears, each once, in the
/// order in which they first occur.
pub open spec fn pending(names: Seq<Seq<char>>, known: Seq<ArtistView>) -> Seq<Seq<char>>
    decreases names.len(),
{
    if names.len() == 0 {
        Seq::empty()
    } else {
        let earlier = pending(names.drop_last(), known);
        if knows_name(known, names.last()) || earlier.contains(names.last()) {
            earlier
        } else {
            earlier.push(names.last())
        }
    }
}

/// Whether some artist of the roster has the identifier `id`.
pub fn has_id(roster: &Vec<Artist>, id: u128) -> (r: bool)
    ensures
        r == knows_id(views(roster@), id),
{
    let n = roster.len();
    let mut i: usize = 0;
    while i < n
        invariant
            n == roster@.len(),
            i <= n,
            forall|k: int| 0 <= k < i ==> (#[trigger] views(roster@)[k]).id != id,
        decreases n - i,
    {
        if roster[i].id == id {
            assert(views(roster@)[i as int].id == id);
            return true;
        }
        i = i + 1;
    }
    false
}

/// Position of the first artist of the roster with the name `name`.
pub fn position_named(roster: &Vec<Artist>, name: &str) -> (r: Option<usize>)
    ensures
        match r {
            Some(i) => is_first_named(views(roster@), name@, i as int),
            None => !knows_name(views(roster@), name@),
        },
{
    let n = roster.len();
    let mut i: usize = 0;
    while i < n
        invariant
            n == roster@.len(),
            i <= n,
            forall|k: int| 0 <= k < i ==> (#[trigger] views(roster@)[k]).name != name@,
        decreases n - i,
    {
        if same_text(roster[i].name.as_str(), name) {
            assert(views(roster@)[i as int].name == name@);
            return Some(i);
        }
        i = i + 1;
    }
    None
}

/// Whether one of `list` is the text `name`.
pub fn lists_name(list: &Vec<String>, name: &str) -> (r: bool)
    ensures
        r == views(list@).contains(name@),
{
    let n = list.len();
    let mut i: usize = 0;
    while i < n
        invariant
            n == list@.len(),
            i <= n,
            forall|k: int| 0 <= k < i ==> #[trigger] views(list@)[k] != name@,
        decreases n - i,
    {
        if same_text(list[i].as_str(), name) {
            assert(views(list@)[i as int] == name@);
            return true;
        }
        i = i + 1;
    }
    false
}

/// The names that still want resolving: those that no artist of the roster
/// bears, each once.
pub fn pending_names(names: &Vec<String>, roster: &Vec<Artist>) -> (out: Vec<String>)
    ensures
        views(out@) == pending(views(names@), views(roster@)),
{
    let ghost all = views(names@);
    let mut out: Vec<String> = Vec::new();
    let n = names.len();
    let mut i: usize = 0;
    proof {
        assert(all.take(0) =~= Seq::<Seq<char>>::empty());
        assert(views(out@) =~= Seq::<Seq<char>>::empty());
    }
    while i < n
        invariant
            n == names@.len(),
            i <= n,
            all == views(names@),
            views(out@) == pending(all.take(i as int), views(roster@)),
        decreases n - i,
    {
        let ghost kept = views(out@);
        proof {
            let upto = all.take(i + 1);
            assert(upto.drop_last() =~= all.take(i as int));
            assert(upto.last() == all[i as int]);
        }
        let name = names[i].as_str();
        let known = position_named(roster, name).is_some();
        if !known && !lists_name(&out, name) {
            out.push(names[i].clone());
            assert(views(out@) =~= kept.push(all[i as int]));
        }
        i = i + 1;
    }
    assert(all.take(n as int) =~= all);
    out
}

/// Adds an artist to the roster unless the roster has one with the same
/// identifier. The roster with a new artist is listed by name. Says whether
/// the artist was added.
pub fn add_artist(roster: Vec<Artist>, artist: Artist) -> (r: (Vec<Artist>, bool))
    ensures
        r.1 == !knows_id(views(roster@), artist@.id),
        r.1 ==> is_arrangement::<Artist, ByName>(views(roster@).push(artist@), views(r.0@)),
        !r.1 ==> r.0 == roster,
{
    if has_id(&roster, artist.id) {
        (roster, false)
    } else {
        let ghost before = views(roster@);
        let ghost added = artist@;
        let mut grown = roster;
        grown.push(artist);
        assert(views(grown@) =~= before.push(added));
        (arrange::<Artist, ByName>(grown), true)
    }
}

/// Lists the roster by name.
pub fn list_by_name(roster: Vec<Artist>) -> (out: Vec<Artist>)
    ensures
        is_arrangement::<Artist, ByName>(views(roster@), views(out@)),
{
    arrange::<Artist, ByName>(roster)
}

/// Removes the first artist with the name `name` from the roster. Says
/// whether there was one.
pub fn remove_named(roster: Vec<Artist>, name: &str) -> (r: (Vec<Artist>, bool))
    ensures
        r.1 == knows_name(views(roster@), name@),
        r.1 ==> exists|i: int| #[trigger]
            is_first_named(views(roster@), name@, i) && views(r.0@) == views(roster@).remove(i),
        !r.1 ==> r.0 == roster,
{
    match position_named(&roster, name) {
        Some(i) => {
            let ghost before = views(roster@);
            let mut left = roster;
            left.remove(i);
            assert(views(left@) =~= before.remove(i as int));
            assert(is_first_named(before, name@, i as int));
            (left, true)
        },
        None => (roster, false),
    }
}

/// Whether the catalogue's name for the artist differs from the name that
/// was searched for.
pub fn name_differs(artist: &Artist) -> (r: bool)
    ensures
        r == (artist@.name != artist@.search_string),
{
    !same_text(artist.name.as_str(), artist.search_string.as_str())
}

/// The artist's name, or the name that was searched for, mentions `needle`.
pub open spec fn artist_mentions(artist: ArtistView, needle: Seq<char>) -> bool {
    text_mentions(artist.name, needle) || text_mentions(artist.search_string, needle)
}

/// Position of the first artist of the roster whose name, or the name that
/// was searched for, mentions `needle`.
pub fn find_mentioning(roster: &Vec<Artist>, needle: &str) -> (r: Option<usize>)
    ensures
        match r {
            Some(i) => {
                &&& i < roster@.len()
                &&& artist_mentions(views(roster@)[i as int], needle@)
                &&& forall|j: int|
                    0 <= j < i ==> !artist_mentions(#[trigger] views(roster@)[j], needle@)
            },
            None => forall|j: int|
                0 <= j < roster@.len() ==> !artist_mentions(
                    #[trigger] views(roster@)[j],
                    needle@,
                ),
        },
{
    let n = roster.len();
    let mut i: usize = 0;
    while i < n
        invariant
            n == roster@.len(),
            i <= n,
            forall|j: int| 0 <= j < i ==> !artist_mentions(#[trigger] views(roster@)[j], needle@),
        decreases n - i,
    {
        if mentions(roster[i].name.as_str(), needle) || mentions(
            roster[i].search_string.as_str(),
            needle,
        ) {
            return Some(i);
        }
        i = i + 1;
    }
    None
}

} // verus!
