//! The shell's screen state machine: Menu, Race, Results. Every transition
//! is decided here from the frame's inputs; the shell applies it.

use vstd::prelude::*;

use crate::race::RacePhase;

verus! {

/// Shell-level screen: the menu, an active race, or the results screen.
#[derive(Debug, Clone, Copy, Default, PartialEq, Eq, Hash, Structural)]
pub enum AppState {
    #[default]
    Menu,
    Race,
    Results,
}

/// From the menu, the start button or Enter starts a race.
pub fn menu_action(start_clicked: bool, enter: bool) -> (next: Option<AppState>)
    ensures
        next == (if start_clicked || enter { Some(AppState::Race) } else { None }),
{
    if start_clicked || enter {
        Some(AppState::Race)
    } else {
        None
    }
}

/// During a race, Escape returns to the menu.
pub fn esc_to_menu(escape: bool) -> (next: Option<AppState>)
    ensures
        next == (if escape { Some(AppState::Menu) } else { None }),
{
    if escape {
        Some(AppState::Menu)
    } else {
        None
    }
}

/// During a race, the results screen follows exactly when the race has
/// finished.
pub fn detect_race_finish(phase: RacePhase) -> (next: Option<AppState>)
    ensures
        next == (if phase == RacePhase::Finished { Some(AppState::Results) } else { None }),
{
    match phase {
        RacePhase::Finished => Some(AppState::Results),
        _ => None,
    }
}

/// On the results screen, R or Enter restarts a fresh race and Escape
/// returns to the menu; restarting wins when both are pressed.
pub fn results_action(r: bool, enter: bool, escape: bool) -> (next: Option<AppState>)
    ensures
        next == (if r || enter {
            Some(AppState::Race)
        } else if escape {
            Some(AppState::Menu)
        } else {
            None
        }),
{
    if r || enter {
        Some(AppState::Race)
    } else if escape {
        Some(AppState::Menu)
    } else {
        None
    }
}

} // verus!
