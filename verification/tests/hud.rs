use topdown_racer::hud::{countdown_display, countdown_overlay, format_hud_data, CarReadout};
use topdown_racer::race::{RacePhase, RaceState, DEFAULT_COUNTDOWN_TICKS};
use topdown_racer::results::{format_results, should_show_results};

fn hundredths(seconds: f32) -> u32 {
    (seconds.max(0.0) * 100.0).round() as u32
}

/// What the HUD reads of a car snapshot, converted as the shell does.
fn readout(
    position: usize,
    completed_laps: u32,
    lap_times: [Option<f32>; 3],
    current_lap_time: f32,
    best_lap_time: Option<f32>,
    forward_speed: f32,
) -> CarReadout {
    CarReadout {
        position,
        completed_laps,
        lap_times: lap_times.iter().map(|t| t.map(hundredths)).collect(),
        current_lap_time: hundredths(current_lap_time),
        best_lap_time: best_lap_time.map(hundredths),
        forward_speed: forward_speed.max(0.0).round() as u32,
    }
}

/// The neutral snapshot: first place, no laps, standing still.
fn sample_snapshot() -> CarReadout {
    readout(1, 0, [None; 3], 0.0, None, 0.0)
}

#[test]
fn hud_shows_lap_position_time_best_and_speed_formatted_from_snapshot() {
    let snap = readout(1, 1, [Some(18.45), None, None], 12.34, Some(18.45), 24.2);
    let hud = format_hud_data(&snap, 4);
    assert_eq!(hud.lap, "LAP 2/3");
    assert_eq!(hud.position, "POS 1st/4");
    assert_eq!(hud.current_lap_time, "LAP TIME 00:12.34");
    assert_eq!(hud.best_lap_time, "BEST 00:18.45");
    assert_eq!(hud.speed, "SPEED 24 u/s");
}

#[test]
fn hud_values_track_snapshot_exactly_without_local_shell_logic() {
    let mut snap = sample_snapshot();
    snap.position = 3;

    let hud_initial = format_hud_data(&snap, 4);
    assert_eq!(hud_initial.lap, "LAP 1/3");
    assert_eq!(hud_initial.position, "POS 3rd/4");
    assert_eq!(hud_initial.best_lap_time, "BEST --:--.--");
    assert_eq!(hud_initial.speed, "SPEED 0 u/s");

    let snap = readout(2, 2, [None; 3], 65.25, Some(61.80), 31.7);
    let hud_updated = format_hud_data(&snap, 4);
    assert_eq!(hud_updated.lap, "LAP 3/3");
    assert_eq!(hud_updated.position, "POS 2nd/4");
    assert_eq!(hud_updated.current_lap_time, "LAP TIME 01:05.25");
    assert_eq!(hud_updated.best_lap_time, "BEST 01:01.80");
    assert_eq!(hud_updated.speed, "SPEED 32 u/s");
}

#[test]
fn hud_lap_never_exceeds_the_race_length() {
    let snap = readout(1, 3, [Some(20.0); 3], 0.0, Some(20.0), 0.0);
    assert_eq!(format_hud_data(&snap, 1).lap, "LAP 3/3");
    let snap = readout(5, u32::MAX, [None; 3], 0.0, None, -4.0);
    let hud = format_hud_data(&snap, 12);
    assert_eq!(hud.lap, "LAP 3/3");
    assert_eq!(hud.position, "POS 5th/12");
    assert_eq!(hud.speed, "SPEED 0 u/s");
}

#[test]
fn countdown_display_shows_three_two_one_then_go() {
    assert_eq!(
        countdown_display(RacePhase::Countdown {
            ticks_remaining: DEFAULT_COUNTDOWN_TICKS
        }),
        "3"
    );
    assert_eq!(
        countdown_display(RacePhase::Countdown {
            ticks_remaining: DEFAULT_COUNTDOWN_TICKS * 2 / 3 + 1
        }),
        "3"
    );
    assert_eq!(
        countdown_display(RacePhase::Countdown {
            ticks_remaining: DEFAULT_COUNTDOWN_TICKS / 2
        }),
        "2"
    );
    assert_eq!(
        countdown_display(RacePhase::Countdown { ticks_remaining: 1 }),
        "1"
    );
    assert_eq!(countdown_display(RacePhase::Racing), "GO!");
}

#[test]
fn countdown_display_edges_of_each_third() {
    let at = |t| countdown_display(RacePhase::Countdown { ticks_remaining: t });
    assert_eq!(at(DEFAULT_COUNTDOWN_TICKS * 2 / 3 + 1), "3");
    assert_eq!(at(DEFAULT_COUNTDOWN_TICKS * 2 / 3), "2");
    assert_eq!(at(DEFAULT_COUNTDOWN_TICKS / 3 + 1), "2");
    assert_eq!(at(DEFAULT_COUNTDOWN_TICKS / 3), "1");
    assert_eq!(at(0), "1");
    assert_eq!(at(DEFAULT_COUNTDOWN_TICKS + 50), "3");
    assert_eq!(countdown_display(RacePhase::Finished), "");
}

fn results_snapshot(position: usize, laps: [Option<f32>; 3], best: Option<f32>) -> CarReadout {
    let mut snap = readout(position, 3, laps, 0.0, best, 0.0);
    snap.position = position;
    snap
}

#[test]
fn results_show_correct_finishing_order_and_per_car_lap_times() {
    let snaps = vec![
        results_snapshot(2, [Some(20.5), Some(19.5), Some(21.0)], Some(19.5)),
        results_snapshot(1, [Some(18.0), Some(18.5), Some(17.5)], Some(17.5)),
        results_snapshot(4, [Some(25.0), Some(24.0), Some(26.0)], Some(24.0)),
        results_snapshot(3, [Some(22.0), Some(21.0), Some(23.0)], Some(21.0)),
    ];

    let rows = format_results(&snaps);
    assert_eq!(rows.len(), 4);
    let car_order: Vec<usize> = rows.iter().map(|r| r.car_number).collect();
    assert_eq!(car_order, vec![2, 1, 4, 3]);
    assert_eq!(rows[0].position, 1);
    assert_eq!(rows[0].lap_times, vec!["00:18.00", "00:18.50", "00:17.50"]);
    assert_eq!(rows[0].best_lap, "00:17.50");
    assert_eq!(rows[3].position, 4);
    assert_eq!(rows[3].best_lap, "00:24.00");
}

#[test]
fn results_keep_grid_order_for_equal_positions_and_show_missing_laps() {
    let snaps = vec![
        results_snapshot(2, [Some(30.0), None, None], Some(30.0)),
        results_snapshot(1, [None; 3], None),
        results_snapshot(2, [None; 3], None),
    ];
    let rows = format_results(&snaps);
    let car_order: Vec<usize> = rows.iter().map(|r| r.car_number).collect();
    assert_eq!(car_order, vec![2, 1, 3]);
    assert_eq!(rows[0].lap_times, vec!["--:--.--", "--:--.--", "--:--.--"]);
    assert_eq!(rows[1].lap_times, vec!["00:30.00", "--:--.--", "--:--.--"]);
    assert_eq!(rows[1].best_lap, "00:30.00");
    assert!(format_results(&[]).is_empty());
}

#[test]
fn race_cannot_finish_before_three_laps_and_results_appear_exactly_at_finish() {
    assert!(!should_show_results(RacePhase::Countdown {
        ticks_remaining: 10
    }));
    assert!(!should_show_results(RacePhase::Racing));
    assert!(should_show_results(RacePhase::Finished));

    // A race whose only car completed a single lap is still racing, never
    // finished: the car reaches each of the loop's checkpoints in turn.
    let mut race = RaceState::new(1, 8, RacePhase::Racing);
    let mut saw_lap_one_racing = false;
    for _ in 0..1800 {
        race.begin_tick();
        race.end_tick(&[true], &[]);
        if race.cars[0].completed_laps == 1 {
            assert_eq!(race.phase, RacePhase::Racing);
            assert!(!should_show_results(race.phase));
            saw_lap_one_racing = true;
            break;
        }
    }
    assert!(saw_lap_one_racing, "must complete one lap while still racing");
}

#[test]
fn green_flash_clears_two_seconds_after_the_start() {
    assert_eq!(countdown_overlay(RacePhase::Racing, 1), "GO!");
    assert_eq!(countdown_overlay(RacePhase::Racing, 128), "GO!");
    assert_eq!(countdown_overlay(RacePhase::Racing, 129), "");
    assert_eq!(
        countdown_overlay(RacePhase::Countdown { ticks_remaining: 1 }, 500),
        "1"
    );
    assert_eq!(countdown_overlay(RacePhase::Finished, 0), "");
}
