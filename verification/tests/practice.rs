use topdown_racer::practice::{InvalidReason, PracticeAttempt, PracticeObservation, PracticeStatus};

/// Gate centers of the fixture section: directional gates across the X
/// axis, facing +X, five units either side.
const GATES: [f32; 3] = [10.0, 20.0, 30.0];

/// Swept forward crossing of a gate facing +X at `center`.
fn crossed(center: f32, previous: f32, current: f32) -> bool {
    let before = previous - center;
    let after = current - center;
    !(before > 0.0 || after <= 0.0 || after <= before)
}

fn observe(from: f32, to: f32, invalidated: bool, speed: f32) -> PracticeObservation {
    PracticeObservation {
        autopilot: false,
        lap_invalidated: invalidated,
        off_track: false,
        reverse_crossings: GATES.iter().map(|&g| crossed(g, to, from)).collect(),
        forward_crossings: GATES.iter().map(|&g| crossed(g, from, to)).collect(),
        speed: speed.to_bits(),
    }
}

#[test]
fn practice_gate_order_reverse_and_recovery_are_ineligible() {
    for (from, to, invalidated, expected) in [
        (19.0, 21.0, false, "Skipped a section gate"),
        (11.0, 9.0, false, "Reverse gate crossing"),
        (0.0, 1.0, true, "Car recovered"),
    ] {
        let mut attempt = PracticeAttempt::new(GATES.len());
        attempt.observe(&observe(from, to, invalidated, 0.0));
        match attempt.status() {
            PracticeStatus::Invalid(reason) => assert_eq!(reason.message(), expected),
            other => panic!("expected {expected}, got {other:?}"),
        }
    }
}

#[test]
fn practice_times_only_the_section_and_freezes_at_exit() {
    let mut attempt = PracticeAttempt::new(GATES.len());
    let mut previous = 9.0f32;
    for x in 10..=31 {
        let current = x as f32;
        attempt.observe(&observe(previous, current, false, 24.0));
        previous = current;
    }
    let finished = PracticeStatus::Finished {
        ticks: 20,
        exit_speed: 24.0f32.to_bits(),
    };
    assert_eq!(attempt.status(), finished);
    assert_eq!(attempt.elapsed_ticks() as f32 / 64.0, 20.0 / 64.0);
    attempt.observe(&observe(previous, previous, true, 0.0));
    assert_eq!(attempt.status(), finished);
}

#[test]
fn autopilot_and_leaving_the_track_end_an_attempt() {
    let mut attempt = PracticeAttempt::new(3);
    let mut obs = observe(0.0, 1.0, false, 20.0);
    obs.autopilot = true;
    attempt.observe(&obs);
    assert_eq!(attempt.status(), PracticeStatus::Invalid(InvalidReason::AutopilotUsed));
    assert_eq!(InvalidReason::AutopilotUsed.message(), "Autopilot used");

    let mut attempt = PracticeAttempt::new(3);
    let mut obs = observe(12.0, 13.0, false, 20.0);
    obs.off_track = true;
    attempt.observe(&obs);
    assert_eq!(attempt.status(), PracticeStatus::Invalid(InvalidReason::LeftTheTrack));
    assert_eq!(InvalidReason::LeftTheTrack.message(), "Left the Track");
}

#[test]
fn approaching_attempts_keep_no_time() {
    let mut attempt = PracticeAttempt::new(3);
    for x in 0..9 {
        attempt.observe(&observe(x as f32, x as f32 + 1.0, false, 20.0));
    }
    assert_eq!(attempt.status(), PracticeStatus::Approach);
    assert_eq!(attempt.elapsed_ticks(), 0);
    assert_eq!(attempt.next_gate(), 0);
    // Several gates crossed forward in order within one tick all count.
    attempt.observe(&observe(9.0, 25.0, false, 30.0));
    assert_eq!(attempt.status(), PracticeStatus::Running);
    assert_eq!(attempt.next_gate(), 2);
}

#[test]
fn practice_starts_repeatably_and_rejects_assistance() {
    let mut a = PracticeAttempt::new(GATES.len());
    let b = PracticeAttempt::new(GATES.len());
    assert_eq!(a.status(), b.status());
    assert_eq!(a.next_gate(), b.next_gate());
    assert_eq!(a.elapsed_ticks(), b.elapsed_ticks());
    // A second of the approach, then the Car is handed to Autopilot.
    for _ in 0..64 {
        a.observe(&observe(0.0, 0.1, false, 20.0));
    }
    assert_eq!(a.status(), PracticeStatus::Approach);
    let mut assisted = observe(0.0, 0.1, false, 20.0);
    assisted.autopilot = true;
    a.observe(&assisted);
    assert_eq!(a.status(), PracticeStatus::Invalid(InvalidReason::AutopilotUsed));
    match a.status() {
        PracticeStatus::Invalid(reason) => assert_eq!(reason.message(), "Autopilot used"),
        other => panic!("expected an assisted attempt, got {other:?}"),
    }
}

#[test]
fn practice_scripted_manual_commands_finish_and_retry_identically() {
    let mut attempt = PracticeAttempt::new(GATES.len());
    let mut repeated = PracticeAttempt::new(GATES.len());
    let mut previous = 0.0f32;
    for tick in 0..4000 {
        let current = previous + 0.05;
        let obs = observe(previous, current, false, 18.0);
        attempt.observe(&obs);
        repeated.observe(&obs);
        assert_eq!(attempt.status(), repeated.status());
        assert_eq!(attempt.elapsed_ticks(), repeated.elapsed_ticks());
        previous = current;
        match attempt.status() {
            PracticeStatus::Finished { ticks, exit_speed } => {
                let seconds = ticks as f32 / 64.0;
                assert!(seconds > 5.0 && seconds < 30.0, "{seconds} s after {tick} ticks");
                assert!(f32::from_bits(exit_speed) > 10.0);
                return;
            }
            PracticeStatus::Invalid(reason) => panic!("clean drive invalidated: {}", reason.message()),
            _ => {}
        }
    }
    panic!("section never finished");
}
