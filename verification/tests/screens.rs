use topdown_racer::lifecycle::{pause_actions, PauseAction, PauseKeys, PauseStep};
use topdown_racer::race::{RacePhase, RaceState, DEFAULT_COUNTDOWN_TICKS};
use topdown_racer::screens::{
    detect_race_finish, esc_to_menu, menu_action, results_action, AppState,
};

#[test]
fn esc_during_race_returns_to_menu() {
    // Enter the Race state first.
    let state = menu_action(false, true).unwrap();
    assert_eq!(state, AppState::Race);
    assert_eq!(esc_to_menu(true), Some(AppState::Menu));
    assert_eq!(esc_to_menu(false), None);
}

#[test]
fn finished_race_transitions_to_results_exactly_when_finished() {
    assert_eq!(detect_race_finish(RacePhase::Finished), Some(AppState::Results));
    assert_eq!(detect_race_finish(RacePhase::Racing), None);
    assert_eq!(
        detect_race_finish(RacePhase::Countdown {
            ticks_remaining: DEFAULT_COUNTDOWN_TICKS
        }),
        None
    );
}

#[test]
fn results_r_instant_restarts_into_a_fresh_countdown_race() {
    assert_eq!(results_action(true, false, false), Some(AppState::Race));
    assert_eq!(results_action(false, true, false), Some(AppState::Race));
    // Entering the race rebuilds a fresh countdown.
    let race = RaceState::new(
        4,
        8,
        RacePhase::Countdown {
            ticks_remaining: DEFAULT_COUNTDOWN_TICKS,
        },
    );
    assert_eq!(
        race.phase,
        RacePhase::Countdown {
            ticks_remaining: DEFAULT_COUNTDOWN_TICKS
        }
    );
    assert!(race.cars.iter().all(|car| car.completed_laps == 0));
}

#[test]
fn results_esc_returns_to_menu_without_resetting_the_race() {
    let race = RaceState::new(4, 8, RacePhase::Finished);
    assert_eq!(results_action(false, false, true), Some(AppState::Menu));
    assert_eq!(race.phase, RacePhase::Finished);
    // Restarting wins when both are pressed; nothing pressed stays put.
    assert_eq!(results_action(true, false, true), Some(AppState::Race));
    assert_eq!(results_action(false, false, false), None);
}

#[test]
fn menu_starts_by_button_or_enter_only() {
    assert_eq!(AppState::default(), AppState::Menu);
    assert_eq!(menu_action(true, false), Some(AppState::Race));
    assert_eq!(menu_action(false, false), None);
}

#[test]
fn focus_loss_or_escape_pauses_and_actions_need_a_paused_race() {
    let none = PauseKeys::default();
    let esc = PauseKeys { escape: true, ..none };
    let enter = PauseKeys { enter: true, ..none };
    assert_eq!(pause_actions(true, none, false, None), PauseStep::Pause);
    assert_eq!(pause_actions(false, esc, true, Some(PauseAction::Menu)), PauseStep::Pause);
    assert_eq!(pause_actions(false, enter, false, None), PauseStep::Idle);
    assert_eq!(
        pause_actions(false, enter, true, None),
        PauseStep::Act(PauseAction::Resume)
    );
    let all = PauseKeys { escape: false, enter: false, r: true, m: true, c: true };
    assert_eq!(pause_actions(false, all, true, None), PauseStep::Act(PauseAction::Restart));
    let mc = PauseKeys { m: true, c: true, ..none };
    assert_eq!(pause_actions(false, mc, true, None), PauseStep::Act(PauseAction::Menu));
    let c = PauseKeys { c: true, ..none };
    assert_eq!(pause_actions(false, c, true, None), PauseStep::Act(PauseAction::Recover));
    // A pressed button wins over keys.
    assert_eq!(
        pause_actions(false, enter, true, Some(PauseAction::Recover)),
        PauseStep::Act(PauseAction::Recover)
    );
    assert_eq!(pause_actions(false, none, true, None), PauseStep::Idle);
}

#[test]
fn menu_enter_transitions_to_race_and_rebuilds_fresh_countdown() {
    // A race deep in flight ...
    let mut before = RaceState::new(
        4,
        8,
        RacePhase::Countdown {
            ticks_remaining: DEFAULT_COUNTDOWN_TICKS,
        },
    );
    for _ in 0..DEFAULT_COUNTDOWN_TICKS + 50 {
        before.begin_tick();
        before.end_tick(&[false; 4], &[]);
    }
    assert_eq!(before.phase, RacePhase::Racing);
    assert!(before.cars[0].current_lap_ticks > 0);

    // ... Enter starts a race, and entering it rebuilds a fresh countdown.
    assert_eq!(menu_action(false, true), Some(AppState::Race));
    let race = RaceState::new(
        4,
        8,
        RacePhase::Countdown {
            ticks_remaining: DEFAULT_COUNTDOWN_TICKS,
        },
    );
    assert_eq!(
        race.phase,
        RacePhase::Countdown {
            ticks_remaining: DEFAULT_COUNTDOWN_TICKS
        }
    );
    assert_eq!(race.cars[0].current_lap_ticks, 0);
}
