use musicbrainz_release_grabber::gate::{
    decide, Admission, Attempt, GateError, GateStep, Passage, Pause, RateGate, MAX_WAITS,
};

#[test]
fn usual_limits_make_a_gate() {
    assert!(RateGate::new().is_ok());
}

#[test]
fn bucket_smaller_than_a_refill_is_refused() {
    assert_eq!(RateGate::with_limits(30, 5, 29).err(), Some(GateError::MaxTokensTooLow));
    assert!(RateGate::with_limits(30, 5, 30).is_ok());
    assert!(RateGate::with_limits(1, 1, 1).is_ok());
    assert_eq!(RateGate::with_limits(2, 1, 1).err(), Some(GateError::MaxTokensTooLow));
}

#[test]
fn limits_out_of_range_are_refused() {
    assert_eq!(RateGate::with_limits(0, 0, 0).err(), Some(GateError::Refused));
    assert_eq!(RateGate::with_limits(5, 0, 5).err(), Some(GateError::Refused));
    assert_eq!(RateGate::with_limits(5, 86_401, 5).err(), Some(GateError::Refused));
    assert_eq!(RateGate::with_limits(1_000_001, 5, 1_000_001).err(), Some(GateError::Refused));
    assert_eq!(RateGate::with_limits(5, 5, 1_000_001).err(), Some(GateError::Refused));
    assert_eq!(RateGate::with_limits(2, 0, 1).err(), Some(GateError::Refused));
    assert!(RateGate::with_limits(0, 1, 0).is_ok());
    assert!(RateGate::with_limits(1_000_000, 86_400, 1_000_000).is_ok());
}

#[test]
fn fresh_bucket_is_empty_and_says_how_long_to_wait() {
    let gate = RateGate::with_limits(1, 3600, 1).unwrap();
    match gate.poll(Attempt::first()) {
        GateStep::Sleep { pause, next } => {
            assert_eq!(next.waits, 1);
            assert!(pause.nanos < 1_000_000_000);
            assert!(pause.secs <= 3600);
            assert!(pause.secs >= 3590);
        }
        other => panic!("unexpected step {:?}", other),
    }
}

#[test]
fn refilled_bucket_grants_what_it_holds() {
    let gate = RateGate::with_limits(5, 1, 5).unwrap();
    let start = std::time::Instant::now();
    let mut granted = 0;
    while granted < 5 {
        assert!(start.elapsed().as_secs() < 10);
        if gate.poll(Attempt::first()) == GateStep::Proceed(Passage::Granted) {
            granted += 1;
        }
    }
    assert!(matches!(gate.poll(Attempt::first()), GateStep::Sleep { .. }));
}

#[test]
fn gate_that_never_grants_lets_through_after_ten_waits() {
    let gate = RateGate::with_limits(1, 3600, 1).unwrap();
    let mut attempt = Attempt::first();
    let mut sleeps = 0;
    let passage = loop {
        match gate.poll(attempt) {
            GateStep::Proceed(passage) => break passage,
            GateStep::Sleep { next, .. } => {
                sleeps += 1;
                assert!(sleeps <= 10);
                attempt = next;
            }
        }
    };
    assert_eq!(passage, Passage::GaveUp);
    assert_eq!(sleeps, 10);
    assert_eq!(MAX_WAITS, 10);
}

#[test]
fn decide_counts_waits() {
    let pause = Pause { secs: 1, nanos: 5 };
    assert_eq!(
        decide(Attempt { waits: 0 }, Admission::Granted),
        GateStep::Proceed(Passage::Granted)
    );
    assert_eq!(
        decide(Attempt { waits: 9 }, Admission::Granted),
        GateStep::Proceed(Passage::Granted)
    );
    assert_eq!(
        decide(Attempt { waits: 0 }, Admission::Wait(pause)),
        GateStep::Sleep { pause, next: Attempt { waits: 1 } }
    );
    assert_eq!(
        decide(Attempt { waits: 9 }, Admission::Wait(pause)),
        GateStep::Sleep { pause, next: Attempt { waits: 10 } }
    );
}
