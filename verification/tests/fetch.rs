use musicbrainz_release_grabber::catalog::{Page, RawRelease};
use musicbrainz_release_grabber::fetch::{Fetch, FetchStep, PageRequest, PAGE_SIZE};
use musicbrainz_release_grabber::release::ReleaseType;
use musicbrainz_release_grabber::transport::{CatalogError, HttpReply};

fn record(id: u128) -> RawRelease {
    RawRelease {
        id,
        title: format!("release {}", id),
        primary_type: Some(ReleaseType::Album),
        first_release_date: Some("2020-01-01".to_string()),
        secondary_types: vec![],
    }
}

fn serve(total: usize, hint: Option<usize>, request: &PageRequest) -> HttpReply<Page> {
    let from = request.offset.min(total);
    let to = (from + request.limit).min(total);
    let records = (from..to).map(|i| record(i as u128)).collect();
    HttpReply::Answered { status: 200, body: Some(Page { count_hint: hint, records }) }
}

fn walk(total: usize, page_size: usize) -> (Vec<usize>, Vec<RawRelease>) {
    let (mut state, mut request) = Fetch::begin_with(7, page_size);
    let mut offsets = Vec::new();
    loop {
        offsets.push(request.offset);
        assert!(offsets.len() <= total + 1);
        match state.receive(serve(total, Some(total), &request)) {
            FetchStep::Request { walk, request: next } => {
                state = walk;
                request = next;
            }
            FetchStep::Done(records) => return (offsets, records),
            FetchStep::Failed(error) => panic!("failed with {:?}", error),
        }
    }
}

#[test]
fn two_hundred_fifty_releases_take_three_requests() {
    let (mut state, mut request) = Fetch::begin(42);
    assert_eq!(request, PageRequest { artist: 42, offset: 0, limit: 100 });
    let mut offsets = vec![];
    let records = loop {
        offsets.push(request.offset);
        assert!(offsets.len() <= 3);
        match state.receive(serve(250, Some(250), &request)) {
            FetchStep::Request { walk, request: next } => {
                assert_eq!(next.artist, 42);
                assert_eq!(next.limit, 100);
                state = walk;
                request = next;
            }
            FetchStep::Done(records) => break records,
            FetchStep::Failed(error) => panic!("failed with {:?}", error),
        }
    };
    assert_eq!(offsets, vec![0, 100, 200]);
    assert_eq!(records.len(), 250);
    let ids: Vec<u128> = records.iter().map(|r| r.id).collect();
    let expected: Vec<u128> = (0..250).collect();
    assert_eq!(ids, expected);
}

#[test]
fn page_size_is_one_hundred() {
    assert_eq!(PAGE_SIZE, 100);
}

#[test]
fn requests_are_total_over_page_size_rounded_up() {
    for (total, page_size, expected) in
        [(1, 100, 1), (100, 100, 1), (101, 100, 2), (200, 100, 2), (7, 3, 3), (9, 3, 3), (5, 1, 5)]
    {
        let (offsets, records) = walk(total, page_size);
        assert_eq!(offsets.len(), expected);
        assert_eq!(records.len(), total);
        for (k, offset) in offsets.iter().enumerate() {
            assert_eq!(*offset, k * page_size);
        }
    }
}

#[test]
fn empty_listing_takes_one_request() {
    let (offsets, records) = walk(0, 100);
    assert_eq!(offsets, vec![0]);
    assert!(records.is_empty());
}

#[test]
fn page_without_records_ends_the_walk() {
    let (state, request) = Fetch::begin(1);
    let step = state.receive(serve(100, Some(1000), &request));
    let (state, request) = match step {
        FetchStep::Request { walk, request } => (walk, request),
        other => panic!("unexpected step {:?}", other),
    };
    assert_eq!(request.offset, 100);
    match state.receive(serve(100, Some(1000), &request)) {
        FetchStep::Done(records) => assert_eq!(records.len(), 100),
        other => panic!("unexpected step {:?}", other),
    }
}

#[test]
fn first_page_without_records_ends_the_walk() {
    let (state, request) = Fetch::begin(1);
    match state.receive(serve(0, Some(50), &request)) {
        FetchStep::Done(records) => assert!(records.is_empty()),
        other => panic!("unexpected step {:?}", other),
    }
}

#[test]
fn missing_count_hint_counts_as_zero() {
    let (state, request) = Fetch::begin(1);
    match state.receive(serve(250, None, &request)) {
        FetchStep::Done(records) => assert_eq!(records.len(), 100),
        other => panic!("unexpected step {:?}", other),
    }
}

#[test]
fn later_hints_are_not_looked_at() {
    let (state, request) = Fetch::begin(1);
    let (state, request) = match state.receive(serve(250, Some(150), &request)) {
        FetchStep::Request { walk, request } => (walk, request),
        other => panic!("unexpected step {:?}", other),
    };
    match state.receive(serve(250, Some(250), &request)) {
        FetchStep::Done(records) => assert_eq!(records.len(), 200),
        other => panic!("unexpected step {:?}", other),
    }
}

#[test]
fn failure_on_a_later_page_discards_the_walk() {
    let (state, request) = Fetch::begin(1);
    let (state, _request) = match state.receive(serve(250, Some(250), &request)) {
        FetchStep::Request { walk, request } => (walk, request),
        other => panic!("unexpected step {:?}", other),
    };
    match state.receive(HttpReply::Answered { status: 503, body: None }) {
        FetchStep::Failed(error) => assert_eq!(error, CatalogError::HttpStatus(503)),
        other => panic!("unexpected step {:?}", other),
    }
}

#[test]
fn each_kind_of_failure_ends_the_walk() {
    let (state, _) = Fetch::begin(1);
    assert!(matches!(
        state.receive(HttpReply::Unreachable),
        FetchStep::Failed(CatalogError::Transport)
    ));
    let (state, _) = Fetch::begin(1);
    assert!(matches!(
        state.receive(HttpReply::Answered { status: 200, body: None }),
        FetchStep::Failed(CatalogError::Decode)
    ));
    let (state, _) = Fetch::begin(1);
    assert!(matches!(
        state.receive(HttpReply::Answered {
            status: 404,
            body: Some(Page { count_hint: Some(1), records: vec![record(1)] })
        }),
        FetchStep::Failed(CatalogError::HttpStatus(404))
    ));
}
