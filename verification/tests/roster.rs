use musicbrainz_release_grabber::paths::valid_dir;
use musicbrainz_release_grabber::resolve::Artist;
use musicbrainz_release_grabber::roster::{
    add_artist, find_mentioning, has_id, list_by_name, lists_name, name_differs, pending_names,
    position_named, remove_named,
};
use musicbrainz_release_grabber::text::mentions;

fn artist(id: u128, name: &str, searched: &str) -> Artist {
    Artist {
        name: name.to_string(),
        id,
        search_string: searched.to_string(),
        sort_name: name.to_string(),
    }
}

fn names(list: &Vec<Artist>) -> Vec<String> {
    list.iter().map(|a| a.name.clone()).collect()
}

#[test]
fn add_artist_lists_by_name() {
    let roster = vec![artist(1, "Abba", "abba"), artist(2, "Zappa", "zappa")];
    let (roster, added) = add_artist(roster, artist(3, "Mogwai", "mogwai"));
    assert!(added);
    assert_eq!(names(&roster), vec!["Abba", "Mogwai", "Zappa"]);
}

#[test]
fn add_artist_refuses_a_known_identifier() {
    let roster = vec![artist(2, "Zappa", "zappa"), artist(1, "Abba", "abba")];
    let (roster, added) = add_artist(roster, artist(1, "ABBA", "Abba"));
    assert!(!added);
    assert_eq!(names(&roster), vec!["Zappa", "Abba"]);
    assert!(has_id(&roster, 1));
    assert!(!has_id(&roster, 3));
}

#[test]
fn remove_named_takes_the_first_of_that_name() {
    let roster = vec![artist(1, "Abba", "a"), artist(2, "Nirvana", "n"), artist(3, "Nirvana", "m")];
    assert_eq!(position_named(&roster, "Nirvana"), Some(1));
    assert_eq!(position_named(&roster, "nirvana"), None);
    let (roster, removed) = remove_named(roster, "Nirvana");
    assert!(removed);
    let left: Vec<u128> = roster.iter().map(|a| a.id).collect();
    assert_eq!(left, vec![1, 3]);
    let (roster, removed) = remove_named(roster, "Unknown");
    assert!(!removed);
    assert_eq!(roster.len(), 2);
}

#[test]
fn pending_names_are_those_without_an_artist() {
    let roster = vec![artist(1, "Abba", "abba"), artist(2, "Zappa", "Frank Zappa")];
    let wanted: Vec<String> = ["Mogwai", "Abba", "Frank Zappa", "Mogwai", "Can"]
        .iter()
        .map(|s| s.to_string())
        .collect();
    let pending = pending_names(&wanted, &roster);
    assert_eq!(pending, vec!["Mogwai", "Frank Zappa", "Can"]);
    assert!(lists_name(&wanted, "Can"));
    assert!(!lists_name(&wanted, "can"));
}

#[test]
fn name_differs_compares_with_what_was_searched() {
    assert!(name_differs(&artist(1, "The Beatles", "beatles")));
    assert!(!name_differs(&artist(1, "Can", "Can")));
}

#[test]
fn valid_dir_accepts_an_existing_directory() {
    assert_eq!(valid_dir("/music", true, true), Ok("/music".to_string()));
    assert_eq!(valid_dir("/music", false, false), Err("Directory does not exist".to_string()));
    assert_eq!(valid_dir("/music", false, true), Err("Directory does not exist".to_string()));
    assert_eq!(valid_dir("/music/file", true, false), Err("Not a directory".to_string()));
}

#[test]
fn mentions_is_substring_search() {
    assert!(mentions("The Beatles", "Beat"));
    assert!(mentions("The Beatles", "The Beatles"));
    assert!(mentions("The Beatles", ""));
    assert!(mentions("", ""));
    assert!(mentions("aab", "ab"));
    assert!(mentions("Sigur Rós", "ós"));
    assert!(!mentions("The Beatles", "beat"));
    assert!(!mentions("The Beatles", "The Beatles "));
    assert!(!mentions("", "a"));
    assert!(!mentions("abab", "abb"));
}

#[test]
fn find_mentioning_looks_at_both_names() {
    let roster =
        vec![artist(1, "Abba", "abba"), artist(2, "Zappa", "Frank Z"), artist(3, "Frank", "f")];
    assert_eq!(find_mentioning(&roster, "Frank"), Some(1));
    assert_eq!(find_mentioning(&roster, "bb"), Some(0));
    assert_eq!(find_mentioning(&roster, "pp"), Some(1));
    assert_eq!(find_mentioning(&roster, "nobody"), None);
    assert_eq!(find_mentioning(&vec![], ""), None);
}

#[test]
fn list_by_name_orders_the_roster() {
    let roster = vec![artist(2, "Zappa", "z"), artist(3, "abba", "a"), artist(1, "Abba", "a")];
    assert_eq!(names(&list_by_name(roster)), vec!["Abba", "Zappa", "abba"]);
    assert!(list_by_name(vec![]).is_empty());
}
