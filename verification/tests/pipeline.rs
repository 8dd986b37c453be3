use musicbrainz_release_grabber::catalog::RawRelease;
use musicbrainz_release_grabber::day::Day;
use musicbrainz_release_grabber::pipeline::{
    classify, dedup_by_title, normalize, partition, resolve_all, stamp,
};
use musicbrainz_release_grabber::rank::Rank;
use musicbrainz_release_grabber::release::{Album, ReleaseType};

fn raw(id: u128, title: &str, primary: Option<ReleaseType>, date: Option<&str>) -> RawRelease {
    RawRelease {
        id,
        title: title.to_string(),
        primary_type: primary,
        first_release_date: date.map(|d| d.to_string()),
        secondary_types: vec![],
    }
}

fn album(id: u128, artist: &str, title: &str, date: &str, release_type: ReleaseType) -> Album {
    Album {
        id,
        artist: artist.to_string(),
        title: title.to_string(),
        date: Some(Day::parse(date).unwrap()),
        release_type,
    }
}

#[test]
fn same_title_twice_leaves_one_release() {
    let records = vec![
        raw(1, "Greatest Hits", Some(ReleaseType::Album), Some("2020-01-01")),
        raw(2, "Greatest Hits", Some(ReleaseType::Album), Some("2021-06-01")),
    ];
    let out = normalize(&records, "Someone");
    assert_eq!(out.len(), 1);
    assert_eq!(out[0].title, "Greatest Hits");
}

#[test]
fn same_title_twice_keeps_the_earlier_day() {
    let records = vec![
        raw(2, "Greatest Hits", Some(ReleaseType::Album), Some("2021-06-01")),
        raw(1, "Greatest Hits", Some(ReleaseType::Album), Some("2020-01-01")),
    ];
    let out = normalize(&records, "Someone");
    assert_eq!(out.len(), 1);
    assert_eq!(out[0].id, 1);
    assert_eq!(out[0].date, Day::parse("2020-01-01"));
}

#[test]
fn same_title_and_day_keeps_the_lower_identifier() {
    let records = vec![
        raw(9, "Live", Some(ReleaseType::Album), Some("2020-01-01")),
        raw(3, "Live", Some(ReleaseType::Album), Some("2020-01-01")),
    ];
    let out = normalize(&records, "Someone");
    assert_eq!(out.len(), 1);
    assert_eq!(out[0].id, 3);
}

#[test]
fn normalize_stamps_the_artist_on_every_release() {
    let records = vec![
        raw(1, "B", Some(ReleaseType::Album), Some("2020-01-01")),
        raw(2, "A", Some(ReleaseType::EP), Some("2019-01-01")),
    ];
    let out = normalize(&records, "The Artist");
    assert_eq!(out.len(), 2);
    assert!(out.iter().all(|a| a.artist == "The Artist"));
}

#[test]
fn normalize_drops_records_without_a_readable_day() {
    let records = vec![
        raw(1, "No date", Some(ReleaseType::Album), None),
        raw(2, "Year only", Some(ReleaseType::Album), Some("1999")),
        raw(3, "Year and month", Some(ReleaseType::Album), Some("1999-05")),
        raw(4, "Empty", Some(ReleaseType::Album), Some("")),
        raw(5, "Not a day", Some(ReleaseType::Album), Some("1999-02-30")),
        raw(6, "Kept", Some(ReleaseType::Album), Some("1999-05-17")),
    ];
    let out = normalize(&records, "Someone");
    assert_eq!(out.len(), 1);
    assert_eq!(out[0].id, 6);
    assert_eq!(out[0].date.unwrap().julian_day(), 2_451_316);
}

#[test]
fn normalize_of_nothing_is_nothing() {
    let out = normalize(&vec![], "Someone");
    assert!(out.is_empty());
}

#[test]
fn normalize_lists_by_day_then_title() {
    let records = vec![
        raw(1, "Zebra", Some(ReleaseType::Album), Some("2020-01-01")),
        raw(2, "Apple", Some(ReleaseType::Album), Some("2021-01-01")),
        raw(3, "Mango", Some(ReleaseType::Album), Some("2020-01-01")),
        raw(4, "Birch", Some(ReleaseType::Album), Some("2019-12-31")),
    ];
    let out = normalize(&records, "Someone");
    let ids: Vec<u128> = out.iter().map(|a| a.id).collect();
    assert_eq!(ids, vec![4, 3, 1, 2]);
}

#[test]
fn normalize_output_is_in_order_pairwise() {
    let records = vec![
        raw(1, "c", Some(ReleaseType::Album), Some("2020-03-01")),
        raw(2, "b", Some(ReleaseType::Single), Some("2020-02-01")),
        raw(3, "a", Some(ReleaseType::Album), Some("2020-03-01")),
        raw(4, "d", None, Some("2018-02-01")),
        raw(5, "e", Some(ReleaseType::Live), Some("2020-02-01")),
    ];
    let out = normalize(&records, "Someone");
    assert_eq!(out.len(), 5);
    for pair in out.windows(2) {
        let a = (&pair[0].artist, pair[0].date.unwrap().julian_day(), &pair[0].title);
        let b = (&pair[1].artist, pair[1].date.unwrap().julian_day(), &pair[1].title);
        assert!(a <= b);
        assert_ne!(pair[0].display_rank(&pair[1]), Rank::After);
    }
}

#[test]
fn missing_primary_type_is_kept_as_other() {
    let records = vec![raw(1, "Unknown kind", None, Some("2020-01-01"))];
    let out = normalize(&records, "Someone");
    assert_eq!(out.len(), 1);
    assert_eq!(out[0].release_type, ReleaseType::Other);
}

#[test]
fn classify_prefers_the_first_secondary_type() {
    assert_eq!(
        classify(Some(ReleaseType::Album), &vec![ReleaseType::Live, ReleaseType::Remix]),
        ReleaseType::Live
    );
    assert_eq!(classify(Some(ReleaseType::Album), &vec![]), ReleaseType::Album);
    assert_eq!(classify(Some(ReleaseType::EP), &vec![]), ReleaseType::EP);
    assert_eq!(classify(None, &vec![ReleaseType::Live]), ReleaseType::Other);
    assert_eq!(classify(None, &vec![]), ReleaseType::Other);
}

#[test]
fn stamp_builds_the_release_of_a_record() {
    let mut record = raw(7, "Title", Some(ReleaseType::Album), Some("2000-01-01"));
    record.secondary_types = vec![ReleaseType::Compilation];
    let made = stamp(&record, "Name").unwrap();
    assert_eq!(made.id, 7);
    assert_eq!(made.artist, "Name");
    assert_eq!(made.title, "Title");
    assert_eq!(made.date.unwrap().julian_day(), 2_451_545);
    assert_eq!(made.release_type, ReleaseType::Compilation);
    assert!(stamp(&raw(8, "Title", Some(ReleaseType::Album), Some("soon")), "Name").is_none());
}

#[test]
fn resolve_all_keeps_the_order_of_the_records() {
    let records = vec![
        raw(1, "Z", Some(ReleaseType::Album), Some("2020-01-01")),
        raw(2, "skipped", Some(ReleaseType::Album), None),
        raw(3, "A", Some(ReleaseType::Album), Some("2010-01-01")),
        raw(4, "Z", Some(ReleaseType::Album), Some("2000-01-01")),
    ];
    let out = resolve_all(&records, "Someone");
    let ids: Vec<u128> = out.iter().map(|a| a.id).collect();
    assert_eq!(ids, vec![1, 3, 4]);
}

#[test]
fn dedup_by_title_orders_by_title_and_keeps_one_each() {
    let list = vec![
        album(1, "x", "b", "2020-01-01", ReleaseType::Album),
        album(2, "x", "a", "2021-01-01", ReleaseType::Album),
        album(3, "x", "b", "2019-01-01", ReleaseType::Album),
        album(4, "x", "a", "2021-01-01", ReleaseType::Album),
    ];
    let out = dedup_by_title(list);
    let ids: Vec<u128> = out.iter().map(|a| a.id).collect();
    assert_eq!(ids, vec![2, 3]);
}

#[test]
fn dedup_by_title_twice_changes_nothing() {
    let list = vec![
        album(1, "x", "b", "2020-01-01", ReleaseType::Album),
        album(2, "x", "a", "2021-01-01", ReleaseType::Album),
        album(3, "x", "b", "2019-01-01", ReleaseType::Album),
        album(4, "y", "c", "2021-01-01", ReleaseType::EP),
        album(5, "x", "c", "2021-01-01", ReleaseType::EP),
    ];
    let once = dedup_by_title(list);
    let ids_once: Vec<u128> = once.iter().map(|a| a.id).collect();
    let twice = dedup_by_title(once);
    let ids_twice: Vec<u128> = twice.iter().map(|a| a.id).collect();
    assert_eq!(ids_once, vec![2, 3, 5]);
    assert_eq!(ids_twice, ids_once);
}

#[test]
fn partition_splits_by_classification_in_order() {
    let list = vec![
        album(1, "x", "a", "2020-01-01", ReleaseType::Album),
        album(2, "x", "b", "2020-01-01", ReleaseType::EP),
        album(3, "x", "c", "2020-01-01", ReleaseType::Album),
        album(4, "x", "d", "2020-01-01", ReleaseType::Live),
    ];
    let parts = partition(list);
    let albums: Vec<u128> = parts.albums.iter().map(|a| a.id).collect();
    let others: Vec<u128> = parts.others.iter().map(|a| a.id).collect();
    assert_eq!(albums, vec![1, 3]);
    assert_eq!(others, vec![2, 4]);
}
