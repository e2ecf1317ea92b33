use photo_renamer::rate_gate::RateGate;

#[test]
fn first_call_goes_at_once() {
    let mut g = RateGate::new(1000);
    assert_eq!(g.reserve(5), 0);
    assert_eq!(g.next_allowed_ms, 1005);
}

#[test]
fn close_calls_are_spaced() {
    let mut g = RateGate::new(1000);
    assert_eq!(g.reserve(0), 0);
    assert_eq!(g.reserve(200), 800);
    assert_eq!(g.reserve(300), 1700);
    assert_eq!(g.next_allowed_ms, 3000);
}

#[test]
fn late_call_waits_not() {
    let mut g = RateGate::new(1000);
    g.reserve(0);
    assert_eq!(g.reserve(5000), 0);
    assert_eq!(g.next_allowed_ms, 6000);
}

#[test]
fn booking_saturates_at_clock_end() {
    let mut g = RateGate::new(1000);
    assert_eq!(g.reserve(u64::MAX - 10), 0);
    assert_eq!(g.next_allowed_ms, u64::MAX);
}
