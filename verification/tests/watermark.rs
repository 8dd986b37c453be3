use musicbrainz_release_grabber::day::{Day, MAX_DAY, MIN_DAY};
use musicbrainz_release_grabber::release::{Album, ReleaseType};
use musicbrainz_release_grabber::watermark::{
    advance, advance_from, advance_now, bump_back, discover, is_volatile, released_on_or_after,
    select_new,
};

fn day(text: &str) -> Day {
    Day::parse(text).unwrap()
}

fn dated(id: u128, artist: &str, title: &str, date: Option<&str>, kind: ReleaseType) -> Album {
    Album {
        id,
        artist: artist.to_string(),
        title: title.to_string(),
        date: date.map(day),
        release_type: kind,
    }
}

#[test]
fn new_album_and_new_single_go_to_their_lists() {
    let gathered = vec![
        dated(1, "A", "Long player", Some("2024-01-02"), ReleaseType::Album),
        dated(2, "A", "Short player", Some("2024-03-01"), ReleaseType::EP),
    ];
    let found = discover(&gathered, day("2024-01-01"));
    let albums: Vec<u128> = found.albums.iter().map(|a| a.id).collect();
    let others: Vec<u128> = found.others.iter().map(|a| a.id).collect();
    assert_eq!(albums, vec![1]);
    assert_eq!(others, vec![2]);
}

#[test]
fn discover_leaves_out_what_is_older_than_the_watermark() {
    let gathered = vec![
        dated(1, "B", "old", Some("2023-12-31"), ReleaseType::Album),
        dated(2, "B", "on the day", Some("2024-01-01"), ReleaseType::Album),
        dated(3, "A", "later", Some("2024-02-01"), ReleaseType::Album),
        dated(4, "A", "undated", None, ReleaseType::Album),
        dated(5, "A", "old single", Some("2020-01-01"), ReleaseType::Single),
    ];
    let found = discover(&gathered, day("2024-01-01"));
    let albums: Vec<u128> = found.albums.iter().map(|a| a.id).collect();
    assert_eq!(albums, vec![3, 2]);
    assert!(found.others.is_empty());
}

#[test]
fn discover_lists_across_artists_in_display_order() {
    let gathered = vec![
        dated(1, "Zed", "a", Some("2024-01-05"), ReleaseType::Album),
        dated(2, "Abe", "z", Some("2024-01-09"), ReleaseType::Album),
        dated(3, "Abe", "b", Some("2024-01-03"), ReleaseType::Album),
        dated(4, "Abe", "a", Some("2024-01-03"), ReleaseType::Album),
        dated(6, "Abe", "a", Some("2024-01-03"), ReleaseType::Live),
        dated(5, "Abe", "a", Some("2024-01-03"), ReleaseType::Live),
    ];
    let found = discover(&gathered, day("2024-01-01"));
    let albums: Vec<u128> = found.albums.iter().map(|a| a.id).collect();
    let others: Vec<u128> = found.others.iter().map(|a| a.id).collect();
    assert_eq!(albums, vec![4, 3, 2, 1]);
    assert_eq!(others, vec![5, 6]);
}

#[test]
fn select_new_keeps_order_and_is_repeatable() {
    let gathered = vec![
        dated(1, "A", "x", Some("2024-05-01"), ReleaseType::Album),
        dated(2, "A", "y", Some("2023-05-01"), ReleaseType::Album),
        dated(3, "A", "z", Some("2024-01-01"), ReleaseType::EP),
        dated(4, "A", "w", None, ReleaseType::EP),
    ];
    let mark = day("2024-01-01");
    let first: Vec<u128> = select_new(&gathered, mark).iter().map(|a| a.id).collect();
    let second: Vec<u128> = select_new(&gathered, mark).iter().map(|a| a.id).collect();
    assert_eq!(first, vec![1, 3]);
    assert_eq!(first, second);
    let again = select_new(&select_new(&gathered, mark), mark);
    let third: Vec<u128> = again.iter().map(|a| a.id).collect();
    assert_eq!(third, first);
}

#[test]
fn released_on_or_after_wants_a_day() {
    let mark = day("2024-01-01");
    assert!(released_on_or_after(&dated(1, "A", "x", Some("2024-01-01"), ReleaseType::Album), mark));
    assert!(!released_on_or_after(&dated(1, "A", "x", Some("2023-12-31"), ReleaseType::Album), mark));
    assert!(!released_on_or_after(&dated(1, "A", "x", None, ReleaseType::Album), mark));
}

#[test]
fn advance_is_the_day_before() {
    assert_eq!(advance(day("2024-03-01")), day("2024-02-29"));
    assert_eq!(advance(day("2024-01-01")), day("2023-12-31"));
    assert_eq!(advance(day("2000-01-01")).julian_day(), 2_451_544);
}

#[test]
fn advance_does_not_go_back_while_the_clock_goes_on() {
    let readings = ["2024-01-01", "2024-01-01", "2024-01-02", "2024-02-29", "2025-01-01"];
    let mut mark = day("2023-12-31");
    for reading in readings {
        let next = advance(day(reading));
        assert!(next.julian_day() >= mark.julian_day());
        mark = next;
    }
    assert_eq!(mark, day("2024-12-31"));
}

#[test]
fn advance_now_reads_a_plausible_day() {
    let next = advance_now().unwrap();
    assert!(next.julian_day() >= 2_458_485);
    assert!(next.julian_day() < MAX_DAY);
    assert_eq!(next.julian_day() + 1, Day::today().julian_day().min(next.julian_day() + 1));
}

#[test]
fn bump_back_subtracts_days() {
    let mark = day("2024-03-01");
    assert_eq!(bump_back(mark, 0), Some(mark));
    assert_eq!(bump_back(mark, 1), Some(day("2024-02-29")));
    assert_eq!(bump_back(mark, 366), Some(day("2023-03-01")));
}

#[test]
fn bump_back_stops_at_the_first_day() {
    let first = Day::from_julian_day(MIN_DAY).unwrap();
    assert_eq!(bump_back(first, 0), Some(first));
    assert_eq!(bump_back(first, 1), None);
    let mark = day("2024-03-01");
    let span = (mark.julian_day() - MIN_DAY) as u64;
    assert_eq!(bump_back(mark, span), Some(first));
    assert_eq!(bump_back(mark, span + 1), None);
    assert_eq!(bump_back(mark, u64::MAX), None);
}

#[test]
fn volatile_is_yesterday_or_later() {
    let today = day("2024-03-10");
    assert!(is_volatile(&dated(1, "A", "x", Some("2024-03-10"), ReleaseType::Album), today));
    assert!(is_volatile(&dated(1, "A", "x", Some("2024-03-09"), ReleaseType::Album), today));
    assert!(is_volatile(&dated(1, "A", "x", Some("2024-04-01"), ReleaseType::Album), today));
    assert!(!is_volatile(&dated(1, "A", "x", Some("2024-03-08"), ReleaseType::Album), today));
    assert!(!is_volatile(&dated(1, "A", "x", None, ReleaseType::Album), today));
}

#[test]
fn advance_from_is_the_day_before_where_there_is_one() {
    assert_eq!(advance_from(day("2024-03-01")), Some(day("2024-02-29")));
    assert_eq!(advance_from(day("2000-01-01")).unwrap().julian_day(), 2_451_544);
    let first = Day::from_julian_day(MIN_DAY).unwrap();
    assert_eq!(advance_from(first), None);
    let second = Day::from_julian_day(MIN_DAY + 1).unwrap();
    assert_eq!(advance_from(second), Some(first));
    let last = Day::from_julian_day(MAX_DAY).unwrap();
    assert_eq!(advance_from(last).unwrap().julian_day(), MAX_DAY - 1);
}
