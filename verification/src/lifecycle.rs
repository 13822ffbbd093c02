//! Pause decisions during a race: what a lost focus, a key or a pause-menu
//! button does. Placement and record eligibility stay with the race.

use vstd::prelude::*;

verus! {

/// A pause-menu action.
#[derive(Debug, Clone, Copy, PartialEq, Eq, Structural)]
pub enum PauseAction {
    Resume,
    Restart,
    Menu,
    Recover,
}

/// What the shell does this frame.
#[derive(Debug, Clone, Copy, PartialEq, Eq, Structural)]
pub enum PauseStep {
    /// Pause the race and hold every control neutral.
    Pause,
    /// Nothing to do.
    Idle,
    /// Carry out a pause-menu action, then hold every control neutral.
    Act(PauseAction),
}

/// The keys read this frame.
#[derive(Debug, Clone, Copy, Default, PartialEq, Eq, Structural)]
pub struct PauseKeys {
    pub escape: bool,
    pub enter: bool,
    pub r: bool,
    pub m: bool,
    pub c: bool,
}

/// The action asked for by the keys: Enter resumes, R restarts, M returns
/// to the menu, C recovers the car, in that priority.
pub open spec fn key_action(keys: PauseKeys) -> Option<PauseAction> {
    if keys.enter {
        Some(PauseAction::Resume)
    } else if keys.r {
        Some(PauseAction::Restart)
    } else if keys.m {
        Some(PauseAction::Menu)
    } else if keys.c {
        Some(PauseAction::Recover)
    } else {
        None
    }
}

/// A lost focus or Escape always pauses. Otherwise, only while paused, a
/// pressed button acts, or else the keys do.
pub open spec fn pause_step(
    focus_lost: bool,
    keys: PauseKeys,
    paused: bool,
    button: Option<PauseAction>,
) -> PauseStep {
    if focus_lost || keys.escape {
        PauseStep::Pause
    } else if !paused {
        PauseStep::Idle
    } else {
        match button {
            Some(action) => PauseStep::Act(action),
            None => match key_action(keys) {
                Some(action) => PauseStep::Act(action),
                None => PauseStep::Idle,
            },
        }
    }
}

/// Decides this frame's pause step.
pub fn pause_actions(
    focus_lost: bool,
    keys: PauseKeys,
    paused: bool,
    button: Option<PauseAction>,
) -> (step: PauseStep)
    ensures
        step == pause_step(focus_lost, keys, paused, button),
{
    if focus_lost || keys.escape {
        return PauseStep::Pause;
    }
    if !paused {
        return PauseStep::Idle;
    }
    let action = match button {
        Some(action) => Some(action),
        None => {
            if keys.enter {
                Some(PauseAction::Resume)
            } else if keys.r {
                Some(PauseAction::Restart)
            } else if keys.m {
                Some(PauseAction::Menu)
            } else if keys.c {
                Some(PauseAction::Recover)
            } else {
                None
            }
        },
    };
    match action {
        Some(action) => PauseStep::Act(action),
        None => PauseStep::Idle,
    }
}

/// A running race is never changed by a pause-menu key or button: only a
/// lost focus or Escape acts on it, and that pauses it.
pub proof fn running_races_only_pause(
    focus_lost: bool,
    keys: PauseKeys,
    button: Option<PauseAction>,
)
    ensures
        pause_step(focus_lost, keys, false, button) == (if focus_lost || keys.escape {
            PauseStep::Pause
        } else {
            PauseStep::Idle
        }),
{
}

} // verus!
