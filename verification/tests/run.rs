use musicbrainz_release_grabber::catalog::ArtistMatch;
use musicbrainz_release_grabber::day::Day;
use musicbrainz_release_grabber::release::{Album, ReleaseType};
use musicbrainz_release_grabber::resolve::{resolve, Artist};
use musicbrainz_release_grabber::run::{enroll, Run};
use musicbrainz_release_grabber::transport::{CatalogError, HttpReply};

fn release(id: u128, artist: &str, title: &str, date: &str, kind: ReleaseType) -> Album {
    Album {
        id,
        artist: artist.to_string(),
        title: title.to_string(),
        date: Day::parse(date),
        release_type: kind,
    }
}

#[test]
fn one_artist_without_a_match_fails_and_the_run_finds_nothing() {
    let names = vec!["Nobody At All".to_string()];
    let mut roster: Vec<Artist> = Vec::new();
    let mut failures = Vec::new();
    for name in &names {
        let reply: HttpReply<Vec<ArtistMatch>> =
            HttpReply::Answered { status: 200, body: Some(vec![]) };
        (roster, failures) = enroll(roster, failures, name, resolve(name, reply));
    }
    assert!(roster.is_empty());
    assert_eq!(failures.len(), 1);
    assert_eq!(failures[0].artist, "Nobody At All");
    assert_eq!(failures[0].error, CatalogError::NotFound);
    let report = Run::new().report(Day::parse("2024-01-01").unwrap());
    assert!(report.found.albums.is_empty());
    assert!(report.found.others.is_empty());
    assert!(report.failures.is_empty());
}

#[test]
fn failure_for_one_artist_does_not_end_the_run() {
    let mut run = Run::new();
    run = run.record("A", Ok(vec![release(1, "A", "one", "2024-02-01", ReleaseType::Album)]));
    run = run.record("B", Err(CatalogError::HttpStatus(503)));
    run = run.record("C", Err(CatalogError::Transport));
    run = run.record(
        "D",
        Ok(vec![
            release(2, "D", "old", "2020-02-01", ReleaseType::Album),
            release(3, "D", "single", "2024-03-01", ReleaseType::Single),
            release(4, "D", "two", "2024-01-15", ReleaseType::Album),
        ]),
    );
    assert_eq!(run.gathered.len(), 4);
    let report = run.report(Day::parse("2024-01-01").unwrap());
    let albums: Vec<u128> = report.found.albums.iter().map(|a| a.id).collect();
    let others: Vec<u128> = report.found.others.iter().map(|a| a.id).collect();
    assert_eq!(albums, vec![1, 4]);
    assert_eq!(others, vec![3]);
    assert_eq!(report.failures.len(), 2);
    assert_eq!(report.failures[0].artist, "B");
    assert_eq!(report.failures[0].error, CatalogError::HttpStatus(503));
    assert_eq!(report.failures[1].artist, "C");
    assert_eq!(report.failures[1].error, CatalogError::Transport);
}

#[test]
fn enroll_adds_what_was_resolved() {
    let found = |id: u128, name: &str| Artist {
        name: name.to_string(),
        id,
        search_string: name.to_lowercase(),
        sort_name: name.to_string(),
    };
    let (roster, failures) = enroll(vec![], vec![], "zappa", Ok(found(2, "Zappa")));
    let (roster, failures) = enroll(roster, failures, "abba", Ok(found(1, "Abba")));
    let (roster, failures) = enroll(roster, failures, "ABBA", Ok(found(1, "ABBA")));
    let (roster, failures) = enroll(roster, failures, "x", Err(CatalogError::Decode));
    let names: Vec<&str> = roster.iter().map(|a| a.name.as_str()).collect();
    assert_eq!(names, vec!["Abba", "Zappa"]);
    assert_eq!(failures.len(), 1);
    assert_eq!(failures[0].artist, "x");
    assert_eq!(failures[0].error, CatalogError::Decode);
}

#[test]
fn enroll_hands_the_roster_back_by_name_whatever_came_of_it() {
    let held = |id: u128, name: &str| Artist {
        name: name.to_string(),
        id,
        search_string: name.to_string(),
        sort_name: name.to_string(),
    };
    let unsorted = || vec![held(2, "Zappa"), held(3, "Mogwai"), held(1, "Abba")];
    let names = |roster: &Vec<Artist>| -> Vec<String> {
        roster.iter().map(|a| a.name.clone()).collect()
    };
    let (roster, failures) = enroll(unsorted(), vec![], "x", Err(CatalogError::Transport));
    assert_eq!(names(&roster), vec!["Abba", "Mogwai", "Zappa"]);
    assert_eq!(failures.len(), 1);
    let (roster, failures) = enroll(unsorted(), vec![], "mogwai", Ok(held(3, "Mogwai again")));
    assert_eq!(names(&roster), vec!["Abba", "Mogwai", "Zappa"]);
    assert!(failures.is_empty());
    let (roster, _) = enroll(unsorted(), vec![], "can", Ok(held(4, "Can")));
    assert_eq!(names(&roster), vec!["Abba", "Can", "Mogwai", "Zappa"]);
}
