//! The watermark, the day that separates releases already seen from new
//! ones, and the selection of what is new relative to it.

use vstd::prelude::*;
use crate::arrange::{arrange, is_arrangement};
use crate::day::{Day, MAX_DAY, MIN_DAY, day_view};
use crate::pipeline::{Partition, album_type_only, other_types_only, partition};
use crate::release::{Album, AlbumView, ByDisplay, album_views};

verus! {

/// A release counts as new when its day of release is known and is the
/// watermark or a later day.
pub open spec fn is_new(album: AlbumView, watermark: int) -> bool {
    match album.date {
        Some(day) => day >= watermark,
        None => false,
    }
}

/// The releases of `s` that are new relative to `watermark`, in their order.
pub open spec fn released_since(s: Seq<AlbumView>, watermark: int) -> Seq<AlbumView> {
    s.filter(|a: AlbumView| is_new(a, watermark))
}

/// The watermark that a run leaves behind when the clock reads `today`: the
/// day before, so that a release indexed a day late is still found.
pub open spec fn advanced(today: int) -> int {
    today - 1
}

/// The watermarks left behind by successive runs, one per clock reading.
pub open spec fn watermarks_after(readings: Seq<int>) -> Seq<int> {
    Seq::new(readings.len(), |i: int| advanced(readings[i]))
}

/// A release is still volatile when its day of release is the day before
/// `today` or later: the catalogue may yet change it.
pub open spec fn volatile(album: AlbumView, today: int) -> bool {
    is_new(album, today - 1)
}

/// Whether `album` is new relative to `watermark`.
pub fn released_on_or_after(album: &Album, watermark: Day) -> (r: bool)
    ensures
        r == is_new(album@, watermark@),
{
    match album.date {
        Some(day) => day.at_or_after(watermark),
        None => false,
    }
}

/// The releases that are new relative to `watermark`, in the order given.
pub fn select_new(albums: &Vec<Album>, watermark: Day) -> (out: Vec<Album>)
    ensures
        album_views(out@) == released_since(album_views(albums@), watermark@),
{
    let ghost all = album_views(albums@);
    let mut out: Vec<Album> = Vec::new();
    let n = albums.len();
    let mut i: usize = 0;
    proof {
        reveal(Seq::filter);
        assert(all.take(0) =~= Seq::<AlbumView>::empty());
        assert(album_views(out@) =~= Seq::<AlbumView>::empty());
    }
    while i < n
        invariant
            n == albums@.len(),
            i <= n,
            all == album_views(albums@),
            album_views(out@) == released_since(all.take(i as int), watermark@),
        decreases n - i,
    {
        let ghost kept = album_views(out@);
        proof {
            assert(all.take(i + 1) =~= all.take(i as int).push(albums@[i as int]@));
            all.take(i as int).lemma_filter_push(
                albums@[i as int]@,
                |a: AlbumView| is_new(a, watermark@),
            );
        }
        if released_on_or_after(&albums[i], watermark) {
            out.push(albums[i].clone());
            assert(album_views(out@) =~= kept.push(albums@[i as int]@));
        }
        i = i + 1;
    }
    assert(all.take(n as int) =~= all);
    out
}

/// What a discovery run reports: of all releases gathered, those that are new
/// relative to `watermark`, split into releases classified `Album` and the
/// rest, each part in display order.
pub fn discover(gathered: &Vec<Album>, watermark: Day) -> (found: Partition)
    ensures
        is_arrangement::<Album, ByDisplay>(
            album_type_only(released_since(album_views(gathered@), watermark@)),
            album_views(found.albums@),
        ),
        is_arrangement::<Album, ByDisplay>(
            other_types_only(released_since(album_views(gathered@), watermark@)),
            album_views(found.others@),
        ),
{
    let fresh = select_new(gathered, watermark);
    let parts = partition(fresh);
    let albums = arrange::<Album, ByDisplay>(parts.albums);
    let others = arrange::<Album, ByDisplay>(parts.others);
    Partition { albums, others }
}

/// The watermark to store at the end of a run when the clock reads `today`.
pub fn advance(today: Day) -> (next: Day)
    requires
        today@ > MIN_DAY,
    ensures
        next@ == advanced(today@),
{
    today.day_before()
}

/// Reads the clock and gives the watermark to store at the end of a run;
/// `None` on the one day that has no day before it.
pub fn advance_now() -> (next: Option<Day>)
    ensures
        next matches Some(day) ==> day@ < MAX_DAY,
{
    advance_from(Day::today())
}

/// The watermark that a run leaves behind when the clock reads `today`, if
/// there is one: the first representable day has no day before it.
pub open spec fn advanced_from(today: int) -> Option<int> {
    if today > MIN_DAY {
        Some(advanced(today))
    } else {
        None
    }
}

/// The watermark to store at the end of a run when the clock reads `today`;
/// `None` on the one day that has no day before it.
pub fn advance_from(today: Day) -> (next: Option<Day>)
    ensures
        day_view(next) == advanced_from(today@),
{
    let number = today.julian_day();
    if number > MIN_DAY {
        Some(advance(today))
    } else {
        None
    }
}

/// Moves the watermark back by `days` days, on the operator's word; `None`
/// where no day lies that far back.
pub fn bump_back(watermark: Day, days: u64) -> (r: Option<Day>)
    ensures
        r is Some <==> watermark@ - days >= MIN_DAY,
        r matches Some(day) ==> day@ == watermark@ - days && day@ <= watermark@,
{
    watermark.days_before(days)
}

/// Whether `album` is still volatile when the clock reads `today`.
pub fn is_volatile(album: &Album, today: Day) -> (r: bool)
    ensures
        r == volatile(album@, today@),
{
    match album.date {
        Some(day) => {
            let d = day.julian_day();
            let t = today.julian_day();
            d + 1 >= t
        },
        None => false,
    }
}

/// Selection is a function of its arguments: two selections from the same
/// releases relative to the same watermark are equal, and selecting again
/// from a selection changes nothing.
pub proof fn lemma_select_new_stable(
    albums: Seq<AlbumView>,
    watermark: int,
    first: Seq<AlbumView>,
    second: Seq<AlbumView>,
)
    requires
        first == released_since(albums, watermark),
        second == released_since(albums, watermark),
    ensures
        first == second,
        released_since(first, watermark) == first,
{
    let pred = |a: AlbumView| is_new(a, watermark);
    lemma_filter_of_filtered(albums, pred);
}

/// Filtering what a filter has left changes nothing.
proof fn lemma_filter_of_filtered<A>(s: Seq<A>, pred: spec_fn(A) -> bool)
    ensures
        s.filter(pred).filter(pred) == s.filter(pred),
    decreases s.len(),
{
    reveal(Seq::filter);
    if s.len() > 0 {
        lemma_filter_of_filtered(s.drop_last(), pred);
        if pred(s.last()) {
            s.drop_last().filter(pred).lemma_filter_push(s.last(), pred);
        }
    }
}

/// While the clock does not run backwards, the watermark does not either:
/// the watermarks left by successive runs never decrease, and none lies
/// before a starting watermark that the first run finds at or before the
/// day before its clock reading.
pub proof fn lemma_watermark_monotone(start: int, readings: Seq<int>)
    requires
        forall|i: int, j: int| 0 <= i < j < readings.len() ==> readings[i] <= readings[j],
        readings.len() > 0 ==> start <= advanced(readings[0]),
    ensures
        forall|i: int, j: int|
            0 <= i < j < readings.len() ==> watermarks_after(readings)[i] <= watermarks_after(
                readings,
            )[j],
        forall|i: int| 0 <= i < readings.len() ==> start <= watermarks_after(readings)[i],
{
    assert forall|i: int| 0 <= i < readings.len() implies start <= watermarks_after(readings)[i] by {
        if i > 0 {
            assert(readings[0] <= readings[i]);
        }
    }
}

} // verus!
