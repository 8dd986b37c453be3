//! The curation session: the operator goes through the previous baseline
//! merged with the newly found releases, removes what is not wanted, and commits or
//! discards the result.

use vstd::prelude::*;
use vstd::seq_lib::{to_multiset_contains, to_multiset_len};
use crate::arrange::{arrange, is_arrangement};
use crate::day::{Day, MIN_DAY};
use crate::release::{Album, AlbumView, ByDisplay, album_views};
use crate::watermark::{advance, advanced};

verus! {

/// Where a session stands.
#[derive(Clone, Copy, Debug, PartialEq, Eq, Structural)]
pub enum Phase {
    /// The operator is going through the list.
    Browsing,
    /// The operator has accepted the list.
    Committed,
    /// The operator has given the session up.
    Discarded,
}

/// What the operator can ask of a session.
#[derive(Clone, Copy, Debug, PartialEq, Eq, Structural)]
pub enum SessionEvent {
    Up,
    Down,
    RemoveSelected,
    Commit,
    Discard,
}

/// A key press, as far as a session tells keys apart.
#[derive(Clone, Copy, Debug, PartialEq, Eq, Structural)]
pub enum Key {
    Up,
    Down,
    Delete,
    Escape,
    Char(char),
    Other,
}

/// The request that a key stands for, if any.
pub open spec fn key_event(key: Key) -> Option<SessionEvent> {
    match key {
        Key::Up => Some(SessionEvent::Up),
        Key::Down => Some(SessionEvent::Down),
        Key::Delete => Some(SessionEvent::RemoveSelected),
        Key::Escape => Some(SessionEvent::Discard),
        Key::Char(c) => if c == 'q' {
            Some(SessionEvent::Discard)
        } else if c == 'd' {
            Some(SessionEvent::RemoveSelected)
        } else if c == 's' {
            Some(SessionEvent::Commit)
        } else {
            None
        },
        Key::Other => None,
    }
}

/// Executable form of [`key_event`].
pub fn event_for_key(key: Key) -> (r: Option<SessionEvent>)
    ensures
        r == key_event(key),
{
    match key {
        Key::Up => Some(SessionEvent::Up),
        Key::Down => Some(SessionEvent::Down),
        Key::Delete => Some(SessionEvent::RemoveSelected),
        Key::Escape => Some(SessionEvent::Discard),
        Key::Char(c) => if c == 'q' {
            Some(SessionEvent::Discard)
        } else if c == 'd' {
            Some(SessionEvent::RemoveSelected)
        } else if c == 's' {
            Some(SessionEvent::Commit)
        } else {
            None
        },
        Key::Other => None,
    }
}

/// Some release of `s` has the identifier `id`.
pub open spec fn holds_id(s: Seq<AlbumView>, id: u128) -> bool {
    exists|k: int| 0 <= k < s.len() && (#[trigger] s[k]).id == id
}

/// The releases of `s` without those whose identifier an earlier release of
/// `s` has, in their order.
pub open spec fn first_by_id(s: Seq<AlbumView>) -> Seq<AlbumView>
    decreases s.len(),
{
    if s.len() == 0 {
        Seq::empty()
    } else {
        let earlier = first_by_id(s.drop_last());
        if holds_id(earlier, s.last().id) {
            earlier
        } else {
            earlier.push(s.last())
        }
    }
}

/// `out` is the list that a session starts with: the baseline followed by the
/// new releases, one release per identifier, in display order.
pub open spec fn is_merged(
    baseline: Seq<AlbumView>,
    found: Seq<AlbumView>,
    out: Seq<AlbumView>,
) -> bool {
    is_arrangement::<Album, ByDisplay>(first_by_id(baseline + found), out)
}

/// A session as plain values.
pub struct SessionView {
    /// The list that is being curated.
    pub albums: Seq<AlbumView>,
    /// Releases shown beside the list; no request touches them.
    pub others: Seq<AlbumView>,
    /// Position of the selected release in the list.
    pub selected: int,
    /// Where the session stands.
    pub phase: Phase,
}

impl SessionView {
    /// The selection points into the list, or at its start where the list is
    /// empty.
    pub open spec fn well_formed(self) -> bool {
        0 <= self.selected && (self.selected < self.albums.len() || (self.albums.len() == 0
            && self.selected == 0))
    }

    /// The session after the operator's request.
    pub open spec fn after(self, event: SessionEvent) -> SessionView {
        if self.phase != Phase::Browsing {
            self
        } else {
            match event {
                SessionEvent::Up => SessionView {
                    selected: if self.selected > 0 {
                        self.selected - 1
                    } else {
                        0
                    },
                    ..self
                },
                SessionEvent::Down => SessionView {
                    selected: if self.selected + 1 < self.albums.len() {
                        self.selected + 1
                    } else {
                        self.selected
                    },
                    ..self
                },
                SessionEvent::RemoveSelected => if self.albums.len() == 0 {
                    self
                } else {
                    SessionView {
                        albums: self.albums.remove(self.selected),
                        selected: if self.selected + 1 < self.albums.len() {
                            self.selected
                        } else if self.selected > 0 {
                            self.selected - 1
                        } else {
                            0
                        },
                        ..self
                    }
                },
                SessionEvent::Commit => SessionView { phase: Phase::Committed, ..self },
                SessionEvent::Discard => SessionView { phase: Phase::Discarded, ..self },
            }
        }
    }
}

/// What is kept between runs.
#[derive(Debug)]
pub struct Stored {
    /// The list that the operator last accepted.
    pub baseline: Vec<Album>,
    /// The watermark of the last run.
    pub watermark: Day,
}

/// What is kept between runs, as plain values.
pub struct StoredView {
    pub baseline: Seq<AlbumView>,
    pub watermark: int,
}

impl View for Stored {
    type V = StoredView;

    open spec fn view(&self) -> StoredView {
        StoredView { baseline: album_views(self.baseline@), watermark: self.watermark@ }
    }
}

/// What is kept once a session is over, when the clock reads `today`: a
/// committed session stores its list as the new baseline together with the
/// advanced watermark; any other leaves what was kept before.
pub open spec fn settled(session: SessionView, before: StoredView, today: int) -> StoredView {
    if session.phase == Phase::Committed {
        StoredView { baseline: session.albums, watermark: advanced(today) }
    } else {
        before
    }
}

/// The session after the operator's requests, in their order.
pub open spec fn after_all(session: SessionView, events: Seq<SessionEvent>) -> SessionView
    decreases events.len(),
{
    if events.len() == 0 {
        session
    } else {
        after_all(session, events.drop_last()).after(events.last())
    }
}

/// `n` requests to move the selection down.
pub open spec fn downs(n: nat) -> Seq<SessionEvent> {
    Seq::new(n, |i: int| SessionEvent::Down)
}

/// A curation session.
#[derive(Debug)]
pub struct Session {
    albums: Vec<Album>,
    others: Vec<Album>,
    selected: usize,
    phase: Phase,
}

impl View for Session {
    type V = SessionView;

    closed spec fn view(&self) -> SessionView {
        SessionView {
            albums: album_views(self.albums@),
            others: album_views(self.others@),
            selected: self.selected as int,
            phase: self.phase,
        }
    }
}

/// Whether some release of `list` has the identifier `id`.
pub fn contains_id(list: &Vec<Album>, id: u128) -> (r: bool)
    ensures
        r == holds_id(album_views(list@), id),
{
    let n = list.len();
    let mut i: usize = 0;
    while i < n
        invariant
            n == list@.len(),
            i <= n,
            forall|k: int| 0 <= k < i ==> (#[trigger] album_views(list@)[k]).id != id,
        decreases n - i,
    {
        if list[i].id == id {
            assert(album_views(list@)[i as int].id == id);
            return true;
        }
        i = i + 1;
    }
    false
}

/// Drops every release whose identifier an earlier release of the list has.
pub fn distinct_by_id(list: Vec<Album>) -> (out: Vec<Album>)
    ensures
        album_views(out@) == first_by_id(album_views(list@)),
{
    let ghost all = album_views(list@);
    let mut out: Vec<Album> = Vec::new();
    let n = list.len();
    let mut i: usize = 0;
    proof {
        assert(all.take(0) =~= Seq::<AlbumView>::empty());
        assert(album_views(out@) =~= Seq::<AlbumView>::empty());
    }
    while i < n
        invariant
            n == list@.len(),
            i <= n,
            all == album_views(list@),
            album_views(out@) == first_by_id(all.take(i as int)),
        decreases n - i,
    {
        let ghost kept = album_views(out@);
        proof {
            let upto = all.take(i + 1);
            assert(upto.drop_last() =~= all.take(i as int));
            assert(upto.last() == all[i as int]);
        }
        if !contains_id(&out, list[i].id) {
            out.push(list[i].clone());
            assert(album_views(out@) =~= kept.push(all[i as int]));
        }
        i = i + 1;
    }
    assert(all.take(n as int) =~= all);
    out
}

impl Session {
    #[verifier::type_invariant]
    spec fn selection_in_list(self) -> bool {
        self.selected < self.albums@.len() || (self.albums@.len() == 0 && self.selected == 0)
    }

    /// Starts a session on the previous baseline merged with the newly found
    /// releases classified `Album`. Where both hold a release, the baseline's
    /// record stays. The other new releases are shown beside the list.
    pub fn open(baseline: Vec<Album>, found: Vec<Album>, others: Vec<Album>) -> (s: Session)
        ensures
            is_merged(album_views(baseline@), album_views(found@), s@.albums),
            s@.others == album_views(others@),
            s@.selected == 0,
            s@.phase == Phase::Browsing,
            s@.well_formed(),
    {
        let mut joined = baseline;
        let mut found = found;
        let ghost first = album_views(joined@);
        let ghost second = album_views(found@);
        joined.append(&mut found);
        assert(album_views(joined@) =~= first + second);
        let distinct = distinct_by_id(joined);
        let albums = arrange::<Album, ByDisplay>(distinct);
        Session { albums, others, selected: 0, phase: Phase::Browsing }
    }

    /// The list that is being curated.
    pub fn albums(&self) -> (r: &Vec<Album>)
        ensures
            album_views(r@) == self@.albums,
    {
        &self.albums
    }

    /// The releases shown beside the list.
    pub fn others(&self) -> (r: &Vec<Album>)
        ensures
            album_views(r@) == self@.others,
    {
        &self.others
    }

    /// Position of the selected release; 0 where the list is empty.
    pub fn selected(&self) -> (r: usize)
        ensures
            r == self@.selected,
            self@.well_formed(),
    {
        proof {
            use_type_invariant(self);
        }
        self.selected
    }

    /// Where the session stands.
    pub fn phase(&self) -> (r: Phase)
        ensures
            r == self@.phase,
    {
        self.phase
    }

    /// Carries out one request of the operator. A session that was committed
    /// or discarded stays as it is.
    pub fn handle(self, event: SessionEvent) -> (next: Session)
        ensures
            next@ == self@.after(event),
            next@.well_formed(),
    {
        proof {
            use_type_invariant(&self);
        }
        let Session { albums, others, selected, phase } = self;
        if phase != Phase::Browsing {
            return Session { albums, others, selected, phase };
        }
        match event {
            SessionEvent::Up => {
                let selected = if selected > 0 {
                    selected - 1
                } else {
                    0
                };
                Session { albums, others, selected, phase }
            },
            SessionEvent::Down => {
                let selected = if albums.len() > 0 && selected < albums.len() - 1 {
                    selected + 1
                } else {
                    selected
                };
                Session { albums, others, selected, phase }
            },
            SessionEvent::RemoveSelected => {
                if albums.len() > 0 {
                    let ghost before = album_views(albums@);
                    let mut albums = albums;
                    albums.remove(selected);
                    assert(album_views(albums@) =~= before.remove(selected as int));
                    let selected = if selected < albums.len() {
                        selected
                    } else if selected > 0 {
                        selected - 1
                    } else {
                        0
                    };
                    Session { albums, others, selected, phase }
                } else {
                    Session { albums, others, selected, phase }
                }
            },
            SessionEvent::Commit => Session { albums, others, selected, phase: Phase::Committed },
            SessionEvent::Discard => Session { albums, others, selected, phase: Phase::Discarded },
        }
    }

    /// What is kept once the session is over: a committed session stores its
    /// list as the new baseline and advances the watermark; any other leaves
    /// what was kept before untouched. Only a committed session looks at the
    /// day.
    pub fn settle(self, before: Stored, today: Day) -> (after: Stored)
        requires
            self@.phase == Phase::Committed ==> today@ > MIN_DAY,
        ensures
            after@ == settled(self@, before@, today@),
            self@.phase != Phase::Committed ==> after == before,
    {
        if self.phase == Phase::Committed {
            Stored { baseline: self.albums, watermark: advance(today) }
        } else {
            before
        }
    }
}

/// What is kept after a discovery run without a session: the releases found
/// become the baseline, and the watermark is advanced.
pub fn keep_found(albums: Vec<Album>, today: Day) -> (after: Stored)
    requires
        today@ > MIN_DAY,
    ensures
        album_views(after.baseline@) == album_views(albums@),
        after.watermark@ == advanced(today@),
{
    Stored { baseline: albums, watermark: advance(today) }
}

/// What a session stores: committed, its list as it then is, together with
/// the day before today; discarded or left open, what was stored before.
/// Removing the selected release before committing stores the list without
/// it.
pub proof fn lemma_commit_stores(s: SessionView, before: StoredView, today: int)
    requires
        s.phase == Phase::Browsing,
        s.well_formed(),
    ensures
        settled(s.after(SessionEvent::Commit), before, today) == (StoredView {
            baseline: s.albums,
            watermark: today - 1,
        }),
        settled(s.after(SessionEvent::Discard), before, today) == before,
        settled(s, before, today) == before,
        s.albums.len() > 0 ==> settled(
            s.after(SessionEvent::RemoveSelected).after(SessionEvent::Commit),
            before,
            today,
        ) == (StoredView { baseline: s.albums.remove(s.selected), watermark: today - 1 }),
        s.after(SessionEvent::RemoveSelected).well_formed(),
        s.after(SessionEvent::RemoveSelected).others == s.others,
{
}

/// Moving down `p` times from the top selects the release at position `p`.
pub proof fn lemma_downs_select(s: SessionView, p: nat)
    requires
        s.phase == Phase::Browsing,
        s.selected == 0,
        p < s.albums.len(),
    ensures
        after_all(s, downs(p)) == (SessionView { selected: p as int, ..s }),
    decreases p,
{
    if p > 0 {
        lemma_downs_select(s, (p - 1) as nat);
        assert(downs(p).drop_last() =~= downs((p - 1) as nat));
    }
}

/// The list that a baseline of one release and one newly found release with
/// another identifier merge into holds the two, and without the first it
/// holds the second alone.
pub proof fn lemma_merged_pair(x: AlbumView, y: AlbumView, merged: Seq<AlbumView>, p: int)
    requires
        x.id != y.id,
        is_merged(seq![x], seq![y], merged),
        0 <= p < merged.len(),
        merged[p] == x,
    ensures
        merged.len() == 2,
        merged.remove(p) == seq![y],
{
    let joined = seq![x] + seq![y];
    let one = joined.drop_last();
    assert(one =~= seq![x]);
    assert(one.drop_last() =~= Seq::<AlbumView>::empty());
    assert(first_by_id(one.drop_last()) =~= Seq::<AlbumView>::empty());
    assert(!holds_id(Seq::<AlbumView>::empty(), x.id));
    assert(first_by_id(one) =~= seq![x]);
    assert(!holds_id(seq![x], y.id));
    assert(joined.last() == y);
    assert(first_by_id(joined) =~= seq![x, y]);
    to_multiset_len(merged);
    to_multiset_len(seq![x, y]);
    to_multiset_contains(merged, y);
    to_multiset_contains(seq![x, y], y);
    assert(seq![x, y][1] == y);
    assert(seq![x, y].contains(y));
    let j = choose|j: int| 0 <= j < merged.len() && merged[j] == y;
    assert(merged.remove(p) =~= seq![y]);
}

/// A session on a baseline of one release and one newly found release with
/// another identifier, in which the operator moves to the baseline's release,
/// removes it and commits, stores the found release alone together with the
/// day before today.
pub proof fn lemma_curation_of_pair(
    x: AlbumView,
    y: AlbumView,
    opened: SessionView,
    p: nat,
    before: StoredView,
    today: int,
)
    requires
        x.id != y.id,
        is_merged(seq![x], seq![y], opened.albums),
        opened.selected == 0,
        opened.phase == Phase::Browsing,
        p < opened.albums.len(),
        opened.albums[p as int] == x,
    ensures
        settled(
            after_all(
                opened,
                downs(p).push(SessionEvent::RemoveSelected).push(SessionEvent::Commit),
            ),
            before,
            today,
        ) == (StoredView { baseline: seq![y], watermark: today - 1 }),
{
    lemma_merged_pair(x, y, opened.albums, p as int);
    lemma_downs_select(opened, p);
    let moves = downs(p);
    let removing = moves.push(SessionEvent::RemoveSelected);
    let all = removing.push(SessionEvent::Commit);
    assert(removing.drop_last() =~= moves);
    assert(all.drop_last() =~= removing);
    let selected = SessionView { selected: p as int, ..opened };
    assert(after_all(opened, removing) == selected.after(SessionEvent::RemoveSelected));
    assert(after_all(opened, all) == selected.after(SessionEvent::RemoveSelected).after(
        SessionEvent::Commit,
    ));
    lemma_commit_stores(selected, before, today);
}

/// `x` is in `s`, and no release before it has its identifier.
pub open spec fn is_first_of_id(s: Seq<AlbumView>, x: AlbumView) -> bool {
    exists|i: int|
        0 <= i < s.len() && #[trigger] s[i] == x && forall|j: int|
            0 <= j < i ==> (#[trigger] s[j]).id != x.id
}

/// Keeping the first release of each identifier keeps, for every release of
/// the list, one with its identifier; what is kept is the first of its
/// identifier in the list; and no identifier is kept twice.
pub proof fn lemma_first_by_id(s: Seq<AlbumView>)
    ensures
        forall|i: int| 0 <= i < s.len() ==> holds_id(first_by_id(s), (#[trigger] s[i]).id),
        forall|k: int|
            0 <= k < first_by_id(s).len() ==> is_first_of_id(s, #[trigger] first_by_id(s)[k]),
        forall|a: int, b: int|
            0 <= a < b < first_by_id(s).len() ==> (#[trigger] first_by_id(s)[a]).id != (
            #[trigger] first_by_id(s)[b]).id,
    decreases s.len(),
{
    if s.len() > 0 {
        let earlier = s.drop_last();
        let kept = first_by_id(earlier);
        let now = first_by_id(s);
        let last = s.last();
        lemma_first_by_id(earlier);
        assert forall|i: int| 0 <= i < s.len() implies holds_id(now, (#[trigger] s[i]).id) by {
            if i < s.len() - 1 {
                assert(holds_id(kept, earlier[i].id));
                let k = choose|k: int| 0 <= k < kept.len() && (#[trigger] kept[k]).id == s[i].id;
                assert(now[k].id == s[i].id);
            } else if holds_id(kept, last.id) {
            } else {
                assert(now[now.len() - 1].id == last.id);
            }
        }
        assert forall|k: int| 0 <= k < now.len() implies is_first_of_id(s, #[trigger] now[k]) by {
            if k < kept.len() {
                assert(is_first_of_id(earlier, kept[k]));
                let i = choose|i: int|
                    0 <= i < earlier.len() && #[trigger] earlier[i] == kept[k] && forall|j: int|
                        0 <= j < i ==> (#[trigger] earlier[j]).id != kept[k].id;
                assert(s[i] == now[k]);
                assert forall|j: int| 0 <= j < i implies (#[trigger] s[j]).id != now[k].id by {
                    assert(earlier[j].id != kept[k].id);
                }
            } else {
                assert(s[s.len() - 1] == now[k]);
                assert forall|j: int| 0 <= j < s.len() - 1 implies (#[trigger] s[j]).id
                    != last.id by {
                    assert(holds_id(kept, earlier[j].id));
                }
            }
        }
        assert forall|a: int, b: int| 0 <= a < b < now.len() implies (#[trigger] now[a]).id != (
        #[trigger] now[b]).id by {
            if b < kept.len() {
                assert(kept[a].id != kept[b].id);
            } else {
                assert(kept[a].id != last.id);
            }
        }
    }
}

} // verus!
