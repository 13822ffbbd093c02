use topdown_racer::unstick::{StuckWatch, REVERSE_TICKS, STUCK_TICKS_LIMIT};

#[test]
fn a_stalled_car_reverses_out_for_a_fixed_time() {
    let mut watch = StuckWatch::new();
    for _ in 0..STUCK_TICKS_LIMIT {
        assert!(!watch.step(true, false));
    }
    assert!(watch.step(true, false), "the limit passed: reverse");
    assert_eq!(watch.reverse_ticks, REVERSE_TICKS);
    for _ in 0..REVERSE_TICKS {
        assert!(watch.step(false, false), "the reversal runs whatever happens");
    }
    assert_eq!(watch, StuckWatch { stuck_ticks: 0, reverse_ticks: 0 });
    assert!(!watch.step(false, false));
}

#[test]
fn moving_resets_the_slow_count_and_wrong_way_reverses_at_once() {
    let mut watch = StuckWatch::new();
    for _ in 0..30 {
        watch.step(true, false);
    }
    assert!(!watch.step(false, false));
    assert_eq!(watch.stuck_ticks, 0);
    assert!(watch.step(false, true));
    assert_eq!(watch.reverse_ticks, REVERSE_TICKS);
}
