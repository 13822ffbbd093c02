use topdown_racer::eligibility::LapMarks;
use topdown_racer::race::{
    FinishStatus, LapProgress, RaceHold, RacePhase, RaceState, RecoveryError,
    DEFAULT_COUNTDOWN_TICKS, FINISH_WINDOW_TICKS, PREPARATION_TICKS, RECOVERY_COOLDOWN_TICKS,
    TOTAL_LAPS,
};

#[test]
fn countdown_locks_controls_until_green_then_races() {
    let mut race = RaceState::new(
        2,
        5,
        RacePhase::Countdown {
            ticks_remaining: DEFAULT_COUNTDOWN_TICKS,
        },
    );
    for tick in 1..DEFAULT_COUNTDOWN_TICKS {
        assert!(race.begin_tick(), "tick {tick} must be locked");
        race.end_tick(&[true, true], &[]);
        assert_eq!(
            race.phase,
            RacePhase::Countdown {
                ticks_remaining: DEFAULT_COUNTDOWN_TICKS - tick
            }
        );
        assert_eq!(race.cars[0].current_lap_ticks, 0);
    }
    assert!(!race.begin_tick(), "the green tick drives");
    assert_eq!(race.phase, RacePhase::Racing);
}

#[test]
fn three_ordered_laps_finish_the_race_with_times_and_best() {
    let segments = 4;
    let mut race = RaceState::new(2, segments, RacePhase::Racing);
    let mut ticks = 0;
    while race.phase == RacePhase::Racing {
        race.begin_tick();
        // Car 0 reaches a checkpoint every tick; car 1 never does.
        race.end_tick(&[true, false], &[]);
        ticks += 1;
        assert!(ticks < 1000 + FINISH_WINDOW_TICKS);
    }
    assert_eq!(race.phase, RacePhase::Finished);
    assert_eq!(ticks, 12 + FINISH_WINDOW_TICKS);
    let winner = &race.cars[0];
    assert_eq!(winner.completed_laps, TOTAL_LAPS);
    assert_eq!(winner.lap_ticks, vec![Some(4), Some(4), Some(4)]);
    assert_eq!(winner.best_lap_ticks, Some(4));
    assert_eq!(race.finish[0], FinishStatus::Finished { place: 1 });
    assert_eq!(race.cars[1].completed_laps, 0);
    assert_eq!(race.cars[1].next_checkpoint, 1);
    assert_eq!(race.cars[1].current_lap_ticks, ticks);
    assert_eq!(race.finish[1], FinishStatus::Dnf);

    // A finished race changes nothing more.
    race.begin_tick();
    race.end_tick(&[true, true], &[]);
    assert_eq!(race.cars[1].current_lap_ticks, ticks);
    assert_eq!(race.finish[1], FinishStatus::Dnf);
}

#[test]
fn winner_leaves_the_rest_of_the_field_a_finish_window() {
    let mut race = RaceState::new(2, 4, RacePhase::Racing);
    // Car 1 completes its third lap on the twelfth tick; car 0 never moves on.
    for _ in 0..12 {
        race.begin_tick();
        race.end_tick(&[false, true], &[]);
    }
    assert_eq!(race.cars[1].completed_laps, 3);
    assert_eq!(race.finish[1], FinishStatus::Finished { place: 1 });
    assert_eq!(race.phase, RacePhase::Racing);
    assert_eq!(race.window_remaining, FINISH_WINDOW_TICKS);
    // The winner is frozen; the player still drives inside the window.
    race.begin_tick();
    race.end_tick(&[true, true], &[]);
    assert_eq!(race.cars[0].next_checkpoint, 2);
    assert_eq!(race.cars[1].current_lap_ticks, 0);
    for _ in 0..FINISH_WINDOW_TICKS - 2 {
        race.begin_tick();
        race.end_tick(&[false, false], &[]);
        assert_eq!(race.phase, RacePhase::Racing);
    }
    race.begin_tick();
    race.end_tick(&[false, false], &[]);
    assert_eq!(race.phase, RacePhase::Finished);
    assert_eq!(race.finish[0], FinishStatus::Dnf);
    assert_eq!(race.finish[1], FinishStatus::Finished { place: 1 });
    assert_eq!(race.cars[1].completed_laps, 3);
    let frozen = race.cars[0].current_lap_ticks;
    race.begin_tick();
    race.end_tick(&[true, true], &[]);
    assert_eq!(race.cars[0].current_lap_ticks, frozen);
    assert_eq!(race.finishers, 1);
}

#[test]
fn lapped_car_takes_the_flag_on_its_next_completed_lap_after_the_winner() {
    let mut race = RaceState::new(2, 4, RacePhase::Racing);
    let mut tick = 0;
    let mut winner_seen = false;
    loop {
        tick += 1;
        race.begin_tick();
        // Car 1 reaches a checkpoint every tick, car 0 every other tick.
        race.end_tick(&[tick % 2 == 0, true], &[]);
        winner_seen |= race.finish[1] == FinishStatus::Finished { place: 1 };
        if race.finish[0] != FinishStatus::Racing {
            break;
        }
        assert!(tick < 100);
    }
    assert!(winner_seen);
    assert_eq!(tick, 16);
    assert_eq!(race.cars[0].completed_laps, 2);
    assert_eq!(race.finish[0], FinishStatus::Finished { place: 2 });
    // Nobody is left racing: the race is over without waiting out the window.
    assert_eq!(race.phase, RacePhase::Finished);
}

#[test]
fn equal_tick_finish_uses_grid_order() {
    let mut race = RaceState::new(2, 4, RacePhase::Racing);
    for _ in 0..12 {
        race.begin_tick();
        race.end_tick(&[true, true], &[]);
    }
    assert_eq!(race.cars[0].lap_ticks, race.cars[1].lap_ticks);
    assert_eq!(race.finish[0], FinishStatus::Finished { place: 1 });
    assert_eq!(race.finish[1], FinishStatus::Finished { place: 2 });
    assert_eq!(race.finishers, 2);
    assert_eq!(race.phase, RacePhase::Finished);
}

#[test]
fn cut_attempts_and_wrong_way_progress_never_increment_the_lap_counter() {
    // Wrong way: the Car never reaches the checkpoint it is due at next.
    let mut race = RaceState::new(1, 8, RacePhase::Racing);
    for _ in 0..300 {
        race.begin_tick();
        race.end_tick(&[false], &[]);
        assert_eq!(race.cars[0].completed_laps, 0);
    }
    // Cut: the first checkpoints in order, then straight back to the line
    // without the rest of the lap.
    let mut cut = RaceState::new(1, 8, RacePhase::Racing);
    for _ in 0..3 {
        cut.begin_tick();
        cut.end_tick(&[true], &[]);
    }
    assert_eq!(cut.cars[0].next_checkpoint, 4);
    for _ in 0..200 {
        cut.begin_tick();
        cut.end_tick(&[false], &[]);
        assert_eq!(cut.cars[0].completed_laps, 0);
        assert_eq!(cut.cars[0].next_checkpoint, 4);
    }
}

#[test]
fn race_phases_transition_countdown_racing_finished_across_three_laps() {
    let mut race = RaceState::new(1, 5, RacePhase::Countdown { ticks_remaining: 16 });
    for tick in 0..15 {
        assert!(race.begin_tick());
        race.end_tick(&[true], &[]);
        assert_eq!(race.phase, RacePhase::Countdown { ticks_remaining: 15 - tick });
    }
    assert!(!race.begin_tick());
    race.end_tick(&[true], &[]);
    assert_eq!(race.phase, RacePhase::Racing);
    let mut ticks = 1;
    while race.phase != RacePhase::Finished {
        race.begin_tick();
        race.end_tick(&[true], &[]);
        ticks += 1;
        assert!(ticks < 5000);
    }
    assert_eq!(race.cars[0].completed_laps, TOTAL_LAPS);
    assert!(race.cars[0].lap_ticks.iter().all(|t| t.is_some()));
    assert_eq!(race.finish[0], FinishStatus::Finished { place: 1 });
}

#[test]
fn missing_checkpoints_never_count_a_lap() {
    let mut car = LapProgress::new();
    for _ in 0..50 {
        car.step(false, 6);
    }
    assert_eq!(car.completed_laps, 0);
    assert_eq!(car.next_checkpoint, 1);
    assert_eq!(car.current_lap_ticks, 50);
}

#[test]
fn best_lap_is_the_fastest_of_the_recorded_laps() {
    let mut car = LapProgress::new();
    // Laps of 5, 4 and 6 ticks on a loop of four checkpoints.
    for extra in [1, 0, 2] {
        for _ in 0..extra {
            car.step(false, 4);
        }
        for _ in 0..4 {
            car.step(true, 4);
        }
    }
    assert_eq!(car.completed_laps, TOTAL_LAPS);
    assert_eq!(car.lap_ticks, vec![Some(5), Some(4), Some(6)]);
    assert_eq!(car.best_lap_ticks, Some(4));
    // The race length caps the laps; further crossings start no new lap.
    for _ in 0..4 {
        car.step(true, 4);
    }
    assert_eq!(car.completed_laps, TOTAL_LAPS);
    assert_eq!(car.lap_ticks, vec![Some(5), Some(4), Some(6)]);
}

#[test]
fn pause_and_resume_hold_race_time_for_the_preparation() {
    let mut race = RaceState::new(1, 4, RacePhase::Racing);
    race.pause();
    assert_eq!(race.hold, RaceHold::Paused);
    for _ in 0..200 {
        assert!(race.hold_tick(), "a paused race stands still");
    }
    race.resume();
    for _ in 0..PREPARATION_TICKS {
        assert!(race.hold_tick(), "preparation stands still");
    }
    assert!(!race.hold_tick(), "race time runs again after one second");
    assert_eq!(race.hold, RaceHold::Live);
    // A finished race cannot be paused.
    let mut done = RaceState::new(1, 4, RacePhase::Finished);
    done.pause();
    assert_eq!(done.hold, RaceHold::Live);
}

#[test]
fn recovery_is_slow_safe_rate_limited_and_invalidates_the_lap() {
    let mut race = RaceState::new(2, 4, RacePhase::Racing);
    assert_eq!(race.recover(0, false, true), Err(RecoveryError::TooFast));
    assert_eq!(race.recover(0, true, false), Err(RecoveryError::Occupied));
    assert!(!race.marks[0].current_invalidated);
    assert_eq!(race.recover(0, true, true), Ok(()));
    assert!(race.marks[0].current_invalidated);
    assert_eq!(race.cars[0].completed_laps, 0);
    assert_eq!(race.recover(0, true, true), Err(RecoveryError::Cooldown));
    // The other Car is unaffected.
    assert_eq!(race.recover(1, true, true), Ok(()));
    for _ in 0..RECOVERY_COOLDOWN_TICKS - 1 {
        race.begin_tick();
        race.end_tick(&[false, false], &[]);
    }
    assert_eq!(race.recover(0, true, true), Err(RecoveryError::Cooldown));
    race.begin_tick();
    assert_eq!(race.recover(0, true, true), Ok(()));
}

#[test]
fn assistance_sticks_to_the_lap_but_next_manual_flying_lap_can_set_a_record() {
    let mut race = RaceState::new(1, 4, RacePhase::Racing);
    // Opening lap: Autopilot for the first two ticks, then manual.
    for tick in 0..4 {
        race.begin_tick();
        race.end_tick(&[true], &[tick < 2]);
    }
    assert_eq!(race.cars[0].completed_laps, 1);
    assert_eq!(race.marks[0].eligible_laps, vec![None]);
    assert_eq!(race.marks[0].best_manual_lap_ticks, None);
    assert!(!race.marks[0].current_assisted);
    // Second lap, manual throughout, five ticks: a flying lap that counts.
    race.begin_tick();
    race.end_tick(&[false], &[false]);
    for _ in 0..4 {
        race.begin_tick();
        race.end_tick(&[true], &[false]);
    }
    assert_eq!(race.cars[0].completed_laps, 2);
    assert_eq!(race.marks[0].eligible_laps, vec![None, Some(5)]);
    assert_eq!(race.marks[0].best_manual_lap_ticks, Some(5));
    // Third lap recovered: it cannot count, the best stays.
    assert_eq!(race.recover(0, true, true), Ok(()));
    for _ in 0..4 {
        race.begin_tick();
        race.end_tick(&[true], &[false]);
    }
    assert_eq!(race.marks[0].eligible_laps, vec![None, Some(5), None]);
    assert_eq!(race.marks[0].best_manual_lap_ticks, Some(5));
    assert_eq!(race.cars[0].lap_ticks, vec![Some(4), Some(5), Some(4)]);
}

#[test]
fn autopilot_lap_is_marked_assisted_even_after_switching_back() {
    let mut marks = LapMarks::new();
    marks.note(true, None);
    marks.note(false, None);
    assert!(marks.current_assisted);
    marks.note(false, Some(300));
    assert_eq!(marks.eligible_laps, vec![None]);
    marks.note(false, Some(280));
    assert_eq!(marks.eligible_laps, vec![None, Some(280)]);
    marks.note(true, Some(250));
    assert_eq!(marks.eligible_laps, vec![None, Some(280), None]);
    assert_eq!(marks.best_manual_lap_ticks, Some(280));
}
