//! From raw catalogue records to the canonical release list of one artist.
//!
//! The steps, in order: classify each record, resolve its day of first
//! release (a record without one is dropped), stamp it with the artist's
//! name, keep one record per title, list what is left in display order.
//! Of several records with one title, the first in display order stays.

use vstd::prelude::*;
use vstd::seq_lib::to_multiset_contains;
use crate::arrange::{Arrangement, arrange, arranged, is_arrangement, views};
use crate::catalog::{RawRelease, RawReleaseView};
use crate::day::{Day, parsed_day};
use crate::rank::Rank;
use crate::release::{
    Album, AlbumView, ByDisplay, ByTitle, ReleaseType, album_views, display_le, key_rank,
    lemma_display_arrangement_unique, lemma_display_rank_flip, lemma_listing_in_order,
    lemma_display_rank_same, lemma_title_arrangement_unique, lemma_title_before,
    lemma_title_le_parts,
};
use crate::text::{lemma_text_rank_same, lemma_text_rank_transitive, same_text, text_rank};

verus! {

/// The classification of a record: its first secondary type where it has
/// one, else its primary type; `Other` where the primary type is missing.
pub open spec fn classification(
    primary: Option<ReleaseType>,
    secondary: Seq<ReleaseType>,
) -> ReleaseType {
    match primary {
        None => ReleaseType::Other,
        Some(p) => if secondary.len() > 0 {
            secondary[0]
        } else {
            p
        },
    }
}

/// The day that an optional date text stands for.
pub open spec fn release_day(text: Option<Seq<char>>) -> Option<int> {
    match text {
        Some(t) => parsed_day(t),
        None => None,
    }
}

/// The release that a raw record stands for under the given artist name;
/// `None` where the record has no day of first release that can be read.
pub open spec fn stamped(raw: RawReleaseView, artist: Seq<char>) -> Option<AlbumView> {
    match release_day(raw.first_release_date) {
        Some(day) => Some(
            AlbumView {
                id: raw.id,
                artist,
                title: raw.title,
                date: Some(day),
                release_type: classification(raw.primary_type, raw.secondary_types),
            },
        ),
        None => None,
    }
}

/// The releases that the raw records stand for, in the records' order.
pub open spec fn candidates(raws: Seq<RawReleaseView>, artist: Seq<char>) -> Seq<AlbumView>
    decreases raws.len(),
{
    if raws.len() == 0 {
        Seq::empty()
    } else {
        let earlier = candidates(raws.drop_last(), artist);
        match stamped(raws.last(), artist) {
            Some(album) => earlier.push(album),
            None => earlier,
        }
    }
}

/// Titles grow strictly along the sequence.
pub open spec fn titles_ascend(s: Seq<AlbumView>) -> bool {
    forall|i: int, j: int|
        0 <= i < j < s.len() ==> #[trigger] text_rank(s[i].title, s[j].title) == Rank::Before
}

/// `kept` can stand for `item`: it has the same title and is not listed
/// after it.
pub open spec fn represents(kept: AlbumView, item: AlbumView) -> bool {
    kept.title == item.title && display_le(kept, item)
}

/// Some release of `out` can stand for `item`.
pub open spec fn has_representative(out: Seq<AlbumView>, item: AlbumView) -> bool {
    exists|k: int| 0 <= k < out.len() && #[trigger] represents(out[k], item)
}

/// `out` keeps one release of `items` for each title: the first in display
/// order among those with that title, the kept releases ordered by title.
pub open spec fn is_title_digest(items: Seq<AlbumView>, out: Seq<AlbumView>) -> bool {
    &&& titles_ascend(out)
    &&& forall|k: int| 0 <= k < out.len() ==> #[trigger] items.contains(out[k])
    &&& forall|i: int| 0 <= i < items.len() ==> #[trigger] has_representative(out, items[i])
}

/// `out` is the canonical release list of the raw records: one release per
/// title among those that the records stand for, in display order.
pub open spec fn normalized(
    raws: Seq<RawReleaseView>,
    artist: Seq<char>,
    out: Seq<AlbumView>,
) -> bool {
    exists|digest: Seq<AlbumView>|
        #![trigger is_title_digest(candidates(raws, artist), digest)]
        is_title_digest(candidates(raws, artist), digest) && is_arrangement::<Album, ByDisplay>(
            digest,
            out,
        )
}

/// The releases of `s` classified `Album`, in their order.
pub open spec fn album_type_only(s: Seq<AlbumView>) -> Seq<AlbumView> {
    s.filter(|a: AlbumView| a.release_type == ReleaseType::Album)
}

/// The releases of `s` not classified `Album`, in their order.
pub open spec fn other_types_only(s: Seq<AlbumView>) -> Seq<AlbumView> {
    s.filter(|a: AlbumView| a.release_type != ReleaseType::Album)
}

/// A release list split by classification.
#[derive(Debug)]
pub struct Partition {
    /// The releases classified `Album`.
    pub albums: Vec<Album>,
    /// All other releases.
    pub others: Vec<Album>,
}

/// Classifies a record from its primary and secondary types.
pub fn classify(primary: Option<ReleaseType>, secondary: &Vec<ReleaseType>) -> (r: ReleaseType)
    ensures
        r == classification(primary, secondary@),
{
    match primary {
        None => ReleaseType::Other,
        Some(p) => if secondary.len() > 0 {
            secondary[0]
        } else {
            p
        },
    }
}

/// Turns one raw record into a release of the given artist, if its day of
/// first release can be read.
pub fn stamp(raw: &RawRelease, artist: &str) -> (r: Option<Album>)
    ensures
        match r {
            Some(album) => stamped(raw@, artist@) == Some(album@),
            None => stamped(raw@, artist@) is None,
        },
{
    let day = match &raw.first_release_date {
        Some(text) => Day::parse(text.as_str()),
        None => None,
    };
    match day {
        Some(d) => Some(
            Album {
                id: raw.id,
                artist: artist.to_owned(),
                title: raw.title.clone(),
                date: Some(d),
                release_type: classify(raw.primary_type, &raw.secondary_types),
            },
        ),
        None => None,
    }
}

/// Turns the raw records into releases of the given artist, dropping those
/// whose day of first release cannot be read.
pub fn resolve_all(raw: &Vec<RawRelease>, artist: &str) -> (out: Vec<Album>)
    ensures
        album_views(out@) == candidates(views(raw@), artist@),
{
    let mut out: Vec<Album> = Vec::new();
    let n = raw.len();
    let mut i: usize = 0;
    assert(views(raw@).take(0) =~= Seq::<RawReleaseView>::empty());
    assert(album_views(out@) =~= Seq::<AlbumView>::empty());
    while i < n
        invariant
            n == raw@.len(),
            i <= n,
            album_views(out@) == candidates(views(raw@).take(i as int), artist@),
        decreases n - i,
    {
        let ghost before = album_views(out@);
        proof {
            let upto = views(raw@).take(i + 1);
            assert(upto.drop_last() =~= views(raw@).take(i as int));
            assert(upto.last() == raw@[i as int]@);
        }
        match stamp(&raw[i], artist) {
            Some(album) => {
                out.push(album);
                assert(album_views(out@) =~= before.push(album@));
            },
            None => {},
        }
        i = i + 1;
    }
    assert(views(raw@).take(n as int) =~= views(raw@));
    out
}

/// Sequences that hold the same views equally often hold the same views.
proof fn lemma_same_members<A>(a: Seq<A>, b: Seq<A>)
    requires
        a.to_multiset() == b.to_multiset(),
    ensures
        forall|x: A| a.contains(x) <==> b.contains(x),
{
    assert forall|x: A| a.contains(x) <==> b.contains(x) by {
        to_multiset_contains(a, x);
        to_multiset_contains(b, x);
    }
}

/// `x` is one of the first `i` releases of `s`.
spec fn among_first(s: Seq<AlbumView>, i: int, x: AlbumView) -> bool {
    exists|j: int| 0 <= j < i && #[trigger] s[j] == x
}

/// `kept` is what collapsing the first `i` releases of `s` leaves.
#[verifier::opaque]
spec fn collapsed_upto(s: Seq<AlbumView>, i: int, kept: Seq<AlbumView>) -> bool {
    &&& titles_ascend(kept)
    &&& forall|k: int| 0 <= k < kept.len() ==> #[trigger] among_first(s, i, kept[k])
    &&& forall|j: int| 0 <= j < i ==> #[trigger] has_representative(kept, s[j])
    &&& i > 0 ==> kept.len() > 0 && kept.last().title == s[i - 1].title
}

/// In a sequence ordered by title, a release whose title differs from that
/// of its predecessor starts a new run: it is kept.
proof fn lemma_collapse_keeps(s: Seq<AlbumView>, i: int, kept: Seq<AlbumView>)
    requires
        arranged::<Album, ByTitle>(s),
        0 <= i < s.len(),
        collapsed_upto(s, i, kept),
        i > 0 ==> s[i - 1].title != s[i].title,
    ensures
        collapsed_upto(s, i + 1, kept.push(s[i])),
{
    reveal(collapsed_upto);
    let x = s[i];
    let now = kept.push(x);
    lemma_display_rank_same(x, x);
    assert forall|a: int, b: int| 0 <= a < b < now.len() implies text_rank(
        now[a].title,
        now[b].title,
    ) == Rank::Before by {
        if b < kept.len() {
            assert(text_rank(kept[a].title, kept[b].title) == Rank::Before);
        } else {
            let last = kept.last();
            assert(among_first(s, i, kept[a]));
            assert(among_first(s, i, kept[kept.len() - 1]));
            let ja = choose|j: int| 0 <= j < i && #[trigger] s[j] == kept[a];
            let jl = choose|j: int| 0 <= j < i && #[trigger] s[j] == kept[kept.len() - 1];
            assert(ByTitle::le(s[ja], s[i]));
            assert(ByTitle::le(s[jl], s[i]));
            lemma_title_le_parts(s[ja], s[i]);
            lemma_title_le_parts(s[jl], s[i]);
            lemma_text_rank_same(last.title, x.title);
            lemma_text_rank_same(kept[a].title, x.title);
            if a < kept.len() - 1 {
                assert(text_rank(kept[a].title, kept[kept.len() - 1].title) == Rank::Before);
                lemma_text_rank_transitive(kept[a].title, last.title, x.title);
            }
        }
    }
    assert forall|k: int| 0 <= k < now.len() implies #[trigger] among_first(s, i + 1, now[k]) by {
        if k < kept.len() {
            assert(among_first(s, i, kept[k]));
            let j = choose|j: int| 0 <= j < i && #[trigger] s[j] == kept[k];
            assert(s[j] == now[k]);
        } else {
            assert(s[i] == now[k]);
        }
    }
    assert forall|j: int| 0 <= j < i + 1 implies #[trigger] has_representative(now, s[j]) by {
        if j < i {
            assert(has_representative(kept, s[j]));
            let k = choose|k: int| 0 <= k < kept.len() && #[trigger] represents(kept[k], s[j]);
            assert(represents(now[k], s[j]));
        } else {
            assert(represents(now[kept.len() as int], s[j]));
        }
    }
}

/// In a sequence ordered by title, a release with the title of its
/// predecessor continues a run: the release kept for the run stands for it.
proof fn lemma_collapse_skips(s: Seq<AlbumView>, i: int, kept: Seq<AlbumView>)
    requires
        arranged::<Album, ByTitle>(s),
        0 < i < s.len(),
        collapsed_upto(s, i, kept),
        s[i - 1].title == s[i].title,
    ensures
        collapsed_upto(s, i + 1, kept),
{
    reveal(collapsed_upto);
    let x = s[i];
    let last = kept.last();
    assert(among_first(s, i, kept[kept.len() - 1]));
    let jl = choose|j: int| 0 <= j < i && #[trigger] s[j] == kept[kept.len() - 1];
    assert(ByTitle::le(s[jl], s[i]));
    lemma_title_le_parts(s[jl], s[i]);
    assert(represents(kept[kept.len() - 1], x));
    assert forall|k: int| 0 <= k < kept.len() implies #[trigger] among_first(s, i + 1, kept[k]) by {
        assert(among_first(s, i, kept[k]));
        let j = choose|j: int| 0 <= j < i && #[trigger] s[j] == kept[k];
        assert(s[j] == kept[k]);
    }
}

/// Collapsing nothing leaves nothing.
proof fn lemma_collapse_starts(s: Seq<AlbumView>)
    ensures
        collapsed_upto(s, 0, Seq::empty()),
{
    reveal(collapsed_upto);
}

/// What collapsing a whole sequence ordered by title leaves is its digest.
proof fn lemma_collapse_ends(s: Seq<AlbumView>, kept: Seq<AlbumView>)
    requires
        collapsed_upto(s, s.len() as int, kept),
    ensures
        is_title_digest(s, kept),
{
    reveal(collapsed_upto);
    assert forall|k: int| 0 <= k < kept.len() implies #[trigger] s.contains(kept[k]) by {
        assert(among_first(s, s.len() as int, kept[k]));
        let j = choose|j: int| 0 <= j < s.len() && #[trigger] s[j] == kept[k];
        assert(s[j] == kept[k]);
    }
}

/// Keeps the first release of each run of equal titles.
fn collapse_titles(sorted: &Vec<Album>) -> (out: Vec<Album>)
    requires
        arranged::<Album, ByTitle>(album_views(sorted@)),
    ensures
        is_title_digest(album_views(sorted@), album_views(out@)),
{
    let ghost s = album_views(sorted@);
    let mut out: Vec<Album> = Vec::new();
    let n = sorted.len();
    let mut i: usize = 0;
    proof {
        assert(album_views(out@) =~= Seq::<AlbumView>::empty());
        lemma_collapse_starts(s);
    }
    while i < n
        invariant
            n == sorted@.len(),
            i <= n,
            s == album_views(sorted@),
            arranged::<Album, ByTitle>(s),
            collapsed_upto(s, i as int, album_views(out@)),
        decreases n - i,
    {
        let ghost kept = album_views(out@);
        let fresh = if i == 0 {
            true
        } else {
            !same_text(sorted[i - 1].title.as_str(), sorted[i].title.as_str())
        };
        if fresh {
            out.push(sorted[i].clone());
            proof {
                assert(album_views(out@) =~= kept.push(s[i as int]));
                lemma_collapse_keeps(s, i as int, kept);
            }
        } else {
            proof {
                lemma_collapse_skips(s, i as int, kept);
            }
        }
        i = i + 1;
    }
    proof {
        lemma_collapse_ends(s, album_views(out@));
    }
    out
}

/// Keeps one release per title: sorts by title and keeps the first of each
/// run of equal titles, which is the first in display order among them.
pub fn dedup_by_title(albums: Vec<Album>) -> (out: Vec<Album>)
    ensures
        is_title_digest(album_views(albums@), album_views(out@)),
{
    let ghost items = album_views(albums@);
    let sorted = arrange::<Album, ByTitle>(albums);
    let out = collapse_titles(&sorted);
    proof {
        let s = album_views(sorted@);
        let now = album_views(out@);
        lemma_same_members(items, s);
        assert forall|i: int| 0 <= i < items.len() implies #[trigger] has_representative(
            now,
            items[i],
        ) by {
            assert(items.contains(items[i]));
            let j = choose|j: int| 0 <= j < s.len() && s[j] == items[i];
            assert(has_representative(now, s[j]));
        }
    }
    out
}

/// The canonical release list of one artist: the raw records classified,
/// dated, stamped with the artist's name, reduced to one release per title and
/// listed in display order.
pub fn normalize(raw: &Vec<RawRelease>, artist: &str) -> (out: Vec<Album>)
    ensures
        normalized(views(raw@), artist@, album_views(out@)),
        arranged::<Album, ByDisplay>(album_views(out@)),
{
    let found = resolve_all(raw, artist);
    let digest = dedup_by_title(found);
    let ghost kept = album_views(digest@);
    let out = arrange::<Album, ByDisplay>(digest);
    assert(is_title_digest(candidates(views(raw@), artist@), kept));
    out
}

/// Splits a release list into the releases classified `Album` and the rest,
/// each part in the order of the list.
pub fn partition(albums: Vec<Album>) -> (parts: Partition)
    ensures
        album_views(parts.albums@) == album_type_only(album_views(albums@)),
        album_views(parts.others@) == other_types_only(album_views(albums@)),
{
    let ghost all = album_views(albums@);
    let mut albums_out: Vec<Album> = Vec::new();
    let mut others_out: Vec<Album> = Vec::new();
    let n = albums.len();
    let mut i: usize = 0;
    proof {
        reveal(Seq::filter);
        assert(all.take(0) =~= Seq::<AlbumView>::empty());
        assert(album_views(albums_out@) =~= Seq::<AlbumView>::empty());
        assert(album_views(others_out@) =~= Seq::<AlbumView>::empty());
    }
    while i < n
        invariant
            n == albums@.len(),
            i <= n,
            all == album_views(albums@),
            album_views(albums_out@) == album_type_only(all.take(i as int)),
            album_views(others_out@) == other_types_only(all.take(i as int)),
        decreases n - i,
    {
        let ghost kept_albums = album_views(albums_out@);
        let ghost kept_others = album_views(others_out@);
        let album = albums[i].clone();
        proof {
            assert(all.take(i + 1) =~= all.take(i as int).push(album@));
            all.take(i as int).lemma_filter_push(
                album@,
                |a: AlbumView| a.release_type == ReleaseType::Album,
            );
            all.take(i as int).lemma_filter_push(
                album@,
                |a: AlbumView| a.release_type != ReleaseType::Album,
            );
        }
        if album.is_album() {
            albums_out.push(album);
            assert(album_views(albums_out@) =~= kept_albums.push(album@));
        } else {
            others_out.push(album);
            assert(album_views(others_out@) =~= kept_others.push(album@));
        }
        i = i + 1;
    }
    assert(all.take(n as int) =~= all);
    Partition { albums: albums_out, others: others_out }
}

/// Two listings with strictly growing titles that hold the same releases
/// are the same listing.
pub proof fn lemma_ascending_listing_unique(b: Seq<AlbumView>, c: Seq<AlbumView>)
    requires
        titles_ascend(b),
        titles_ascend(c),
        forall|x: AlbumView| b.contains(x) <==> c.contains(x),
    ensures
        b == c,
{
    lemma_ascending_is_arranged(b);
    lemma_ascending_is_arranged(c);
    b.lemma_multiset_has_no_duplicates();
    c.lemma_multiset_has_no_duplicates();
    assert forall|x: AlbumView| b.to_multiset().count(x) == c.to_multiset().count(x) by {
        to_multiset_contains(b, x);
        to_multiset_contains(c, x);
    }
    assert(b.to_multiset() =~= c.to_multiset());
    lemma_title_arrangement_unique(b, b, c);
}

/// A listing with strictly growing titles is in order by title and holds no
/// release twice.
pub proof fn lemma_ascending_is_arranged(s: Seq<AlbumView>)
    requires
        titles_ascend(s),
    ensures
        arranged::<Album, ByTitle>(s),
        s.no_duplicates(),
{
    assert forall|i: int, j: int| 0 <= i < j < s.len() implies #[trigger] ByTitle::le(
        s[i],
        s[j],
    ) by {
        lemma_title_before(s[i], s[j]);
    }
    assert forall|i: int, j: int| 0 <= i < s.len() && 0 <= j < s.len() && i != j implies s[i]
        != s[j] by {
        lemma_text_rank_same(s[i].title, s[j].title);
        if i < j {
            assert(text_rank(s[i].title, s[j].title) == Rank::Before);
        } else {
            assert(text_rank(s[j].title, s[i].title) == Rank::Before);
        }
    }
}

/// In a listing with strictly growing titles, a title names one position.
pub proof fn lemma_ascending_title_position(s: Seq<AlbumView>, i: int, j: int)
    requires
        titles_ascend(s),
        0 <= i < s.len(),
        0 <= j < s.len(),
        s[i].title == s[j].title,
    ensures
        i == j,
{
    lemma_text_rank_same(s[i].title, s[j].title);
    if i < j {
        assert(text_rank(s[i].title, s[j].title) == Rank::Before);
    } else if j < i {
        assert(text_rank(s[j].title, s[i].title) == Rank::Before);
    }
}

/// Every release of one digest of `items` is in every other.
proof fn lemma_digest_covers(items: Seq<AlbumView>, b: Seq<AlbumView>, c: Seq<AlbumView>)
    requires
        is_title_digest(items, b),
        is_title_digest(items, c),
    ensures
        forall|i: int| 0 <= i < b.len() ==> #[trigger] c.contains(b[i]),
{
    assert forall|i: int| 0 <= i < b.len() implies #[trigger] c.contains(b[i]) by {
        assert(items.contains(b[i]));
        let m = choose|m: int| 0 <= m < items.len() && items[m] == b[i];
        assert(has_representative(c, items[m]));
        let k = choose|k: int| 0 <= k < c.len() && #[trigger] represents(c[k], b[i]);
        assert(items.contains(c[k]));
        let m2 = choose|m2: int| 0 <= m2 < items.len() && items[m2] == c[k];
        assert(has_representative(b, items[m2]));
        let j = choose|j: int| 0 <= j < b.len() && #[trigger] represents(b[j], c[k]);
        lemma_ascending_title_position(b, i, j);
        lemma_display_rank_flip(b[i], c[k]);
        lemma_display_rank_same(b[i], c[k]);
        assert(c[k] == b[i]);
    }
}

/// The digest of a listing is determined by the listing.
pub proof fn lemma_title_digest_unique(
    items: Seq<AlbumView>,
    b: Seq<AlbumView>,
    c: Seq<AlbumView>,
)
    requires
        is_title_digest(items, b),
        is_title_digest(items, c),
    ensures
        b == c,
{
    lemma_digest_covers(items, b, c);
    lemma_digest_covers(items, c, b);
    assert forall|x: AlbumView| b.contains(x) <==> c.contains(x) by {
        if b.contains(x) {
            let i = choose|i: int| 0 <= i < b.len() && b[i] == x;
            assert(c.contains(b[i]));
        }
        if c.contains(x) {
            let i = choose|i: int| 0 <= i < c.len() && c[i] == x;
            assert(b.contains(c[i]));
        }
    }
    lemma_ascending_listing_unique(b, c);
}

/// Removing duplicate titles from a listing that has none changes nothing:
/// the digest of a digest is that digest.
pub proof fn lemma_dedup_idempotent(
    items: Seq<AlbumView>,
    once: Seq<AlbumView>,
    twice: Seq<AlbumView>,
)
    requires
        is_title_digest(items, once),
        is_title_digest(once, twice),
    ensures
        twice == once,
{
    assert forall|x: AlbumView| twice.contains(x) <==> once.contains(x) by {
        if twice.contains(x) {
            let k = choose|k: int| 0 <= k < twice.len() && twice[k] == x;
            assert(once.contains(twice[k]));
        }
        if once.contains(x) {
            let i = choose|i: int| 0 <= i < once.len() && once[i] == x;
            assert(has_representative(twice, once[i]));
            let k = choose|k: int| 0 <= k < twice.len() && #[trigger] represents(twice[k], x);
            assert(once.contains(twice[k]));
            let j = choose|j: int| 0 <= j < once.len() && once[j] == twice[k];
            lemma_ascending_title_position(once, i, j);
            assert(twice[k] == x);
        }
    }
    lemma_ascending_listing_unique(twice, once);
}

/// The canonical release list is determined by the raw records and the
/// artist's name.
pub proof fn lemma_normalized_unique(
    raws: Seq<RawReleaseView>,
    artist: Seq<char>,
    first: Seq<AlbumView>,
    second: Seq<AlbumView>,
)
    requires
        normalized(raws, artist, first),
        normalized(raws, artist, second),
    ensures
        first == second,
{
    let found = candidates(raws, artist);
    let d1 = choose|d: Seq<AlbumView>| #[trigger]
        is_title_digest(found, d) && is_arrangement::<Album, ByDisplay>(d, first);
    let d2 = choose|d: Seq<AlbumView>| #[trigger]
        is_title_digest(found, d) && is_arrangement::<Album, ByDisplay>(d, second);
    lemma_title_digest_unique(found, d1, d2);
    lemma_display_arrangement_unique(d1, first, second);
}

/// In a canonical release list, each release and the next are in order by
/// artist, day of release and title.
pub proof fn lemma_normalized_in_order(
    raws: Seq<RawReleaseView>,
    artist: Seq<char>,
    out: Seq<AlbumView>,
    i: int,
)
    requires
        normalized(raws, artist, out),
        0 <= i,
        i + 1 < out.len(),
    ensures
        key_rank(out[i], out[i + 1]) != Rank::After,
{
    lemma_listing_in_order(out, i);
}

/// Some raw record stands for the release `x`.
pub open spec fn stood_for(raws: Seq<RawReleaseView>, artist: Seq<char>, x: AlbumView) -> bool {
    exists|i: int| 0 <= i < raws.len() && #[trigger] stamped(raws[i], artist) == Some(x)
}

/// The candidates are the releases that some raw record stands for.
pub proof fn lemma_candidates_members(raws: Seq<RawReleaseView>, artist: Seq<char>, x: AlbumView)
    ensures
        candidates(raws, artist).contains(x) <==> stood_for(raws, artist, x),
    decreases raws.len(),
{
    if raws.len() > 0 {
        let earlier = raws.drop_last();
        lemma_candidates_members(earlier, artist, x);
        let before = candidates(earlier, artist);
        let all = candidates(raws, artist);
        if stood_for(raws, artist, x) {
            let i = choose|i: int| 0 <= i < raws.len() && #[trigger] stamped(raws[i], artist)
                == Some(x);
            if i < raws.len() - 1 {
                assert(stamped(earlier[i], artist) == Some(x));
                let k = choose|k: int| 0 <= k < before.len() && before[k] == x;
                assert(all[k] == x);
            } else {
                assert(all.last() == x);
            }
        }
        if all.contains(x) {
            let k = choose|k: int| 0 <= k < all.len() && all[k] == x;
            if k < before.len() {
                assert(before.contains(before[k]));
                let i = choose|i: int| 0 <= i < earlier.len() && #[trigger] stamped(
                    earlier[i],
                    artist,
                ) == Some(x);
                assert(stamped(raws[i], artist) == Some(x));
            } else {
                assert(stamped(raws[raws.len() - 1], artist) == Some(x));
            }
        }
    }
}

/// Every release of a canonical release list comes from a raw record: it
/// bears the artist's name and has a day of release.
pub proof fn lemma_normalized_sound(
    raws: Seq<RawReleaseView>,
    artist: Seq<char>,
    out: Seq<AlbumView>,
    k: int,
)
    requires
        normalized(raws, artist, out),
        0 <= k < out.len(),
    ensures
        stood_for(raws, artist, out[k]),
        out[k].artist == artist,
        out[k].date is Some,
{
    let found = candidates(raws, artist);
    let digest = choose|d: Seq<AlbumView>| #[trigger]
        is_title_digest(found, d) && is_arrangement::<Album, ByDisplay>(d, out);
    lemma_same_members(digest, out);
    assert(out.contains(out[k]));
    let j = choose|j: int| 0 <= j < digest.len() && digest[j] == out[k];
    assert(found.contains(digest[j]));
    lemma_candidates_members(raws, artist, out[k]);
}

/// Every raw record that stands for a release has its title in the
/// canonical release list, on a release that is not listed after it.
pub proof fn lemma_normalized_complete(
    raws: Seq<RawReleaseView>,
    artist: Seq<char>,
    out: Seq<AlbumView>,
    x: AlbumView,
)
    requires
        normalized(raws, artist, out),
        stood_for(raws, artist, x),
    ensures
        has_representative(out, x),
{
    let found = candidates(raws, artist);
    let digest = choose|d: Seq<AlbumView>| #[trigger]
        is_title_digest(found, d) && is_arrangement::<Album, ByDisplay>(d, out);
    lemma_candidates_members(raws, artist, x);
    let m = choose|m: int| 0 <= m < found.len() && found[m] == x;
    assert(has_representative(digest, found[m]));
    let j = choose|j: int| 0 <= j < digest.len() && #[trigger] represents(digest[j], x);
    lemma_same_members(digest, out);
    assert(digest.contains(digest[j]));
    let k = choose|k: int| 0 <= k < out.len() && out[k] == digest[j];
    assert(represents(out[k], x));
}

/// No two releases of a canonical release list have the same title.
pub proof fn lemma_normalized_titles_distinct(
    raws: Seq<RawReleaseView>,
    artist: Seq<char>,
    out: Seq<AlbumView>,
    i: int,
    j: int,
)
    requires
        normalized(raws, artist, out),
        0 <= i < j < out.len(),
    ensures
        out[i].title != out[j].title,
{
    let found = candidates(raws, artist);
    let digest = choose|d: Seq<AlbumView>| #[trigger]
        is_title_digest(found, d) && is_arrangement::<Album, ByDisplay>(d, out);
    lemma_same_members(digest, out);
    lemma_ascending_is_arranged(digest);
    digest.lemma_multiset_has_no_duplicates();
    out.lemma_multiset_has_no_duplicates_conv();
    assert(out[i] != out[j]);
    assert(out.contains(out[i]));
    assert(out.contains(out[j]));
    let a = choose|a: int| 0 <= a < digest.len() && digest[a] == out[i];
    let b = choose|b: int| 0 <= b < digest.len() && digest[b] == out[j];
    if out[i].title == out[j].title {
        lemma_ascending_title_position(digest, a, b);
    }
}

} // verus!
