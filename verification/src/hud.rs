//! HUD projection: the strings shown for the player's car each frame and
//! the countdown overlay text.

use vstd::prelude::*;

use crate::race::{RacePhase, DEFAULT_COUNTDOWN_TICKS, FIXED_HZ, TOTAL_LAPS};
use crate::text::{
    decimal, decimal_string, format_opt_lap_time, format_time, opt_time_text, ordinal,
    ordinal_text, time_text,
};

verus! {

/// What the HUD and the results table read of one car: its live race
/// position, laps, lap times in hundredths of a second, and its forward
/// speed rounded to whole units per second (negative speeds read as 0).
#[derive(Debug, Clone)]
pub struct CarReadout {
    pub position: usize,
    pub completed_laps: u32,
    pub lap_times: Vec<Option<u32>>,
    pub current_lap_time: u32,
    pub best_lap_time: Option<u32>,
    pub forward_speed: u32,
}

/// Formatted HUD strings derived from one car's readout.
#[derive(Debug, Clone, PartialEq, Eq)]
pub struct HudData {
    pub lap: String,
    pub position: String,
    pub current_lap_time: String,
    pub best_lap_time: String,
    pub speed: String,
}

/// The lap being driven, capped at the race length.
pub open spec fn shown_lap(completed_laps: u32) -> nat {
    if completed_laps + 1 < TOTAL_LAPS {
        (completed_laps + 1) as nat
    } else {
        TOTAL_LAPS as nat
    }
}

pub open spec fn lap_text(completed_laps: u32) -> Seq<char> {
    "LAP "@ + decimal(shown_lap(completed_laps)) + "/"@ + decimal(TOTAL_LAPS as nat)
}

pub open spec fn position_text(position: usize, total_cars: usize) -> Seq<char> {
    "POS "@ + ordinal_text(position as nat) + "/"@ + decimal(total_cars as nat)
}

pub open spec fn current_time_text(current: u32) -> Seq<char> {
    "LAP TIME "@ + time_text(current as nat)
}

pub open spec fn best_time_text(best: Option<u32>) -> Seq<char> {
    "BEST "@ + opt_time_text(best)
}

pub open spec fn speed_text(speed: u32) -> Seq<char> {
    "SPEED "@ + decimal(speed as nat) + " u/s"@
}

/// The HUD of a car, field by field.
pub open spec fn shows(hud: HudData, snap: CarReadout, total_cars: usize) -> bool {
    &&& hud.lap@ == lap_text(snap.completed_laps)
    &&& hud.position@ == position_text(snap.position, total_cars)
    &&& hud.current_lap_time@ == current_time_text(snap.current_lap_time)
    &&& hud.best_lap_time@ == best_time_text(snap.best_lap_time)
    &&& hud.speed@ == speed_text(snap.forward_speed)
}

/// Maps a car's readout to the HUD strings; it holds no race rules.
pub fn format_hud_data(player_snap: &CarReadout, total_cars: usize) -> (hud: HudData)
    ensures
        shows(hud, *player_snap, total_cars),
{
    let current_lap = if player_snap.completed_laps < TOTAL_LAPS {
        player_snap.completed_laps + 1
    } else {
        TOTAL_LAPS
    };
    let mut lap = String::from_str("LAP ");
    lap.append(decimal_string(current_lap as u64).as_str());
    lap.append("/");
    lap.append(decimal_string(TOTAL_LAPS as u64).as_str());

    let mut position = String::from_str("POS ");
    position.append(ordinal(player_snap.position).as_str());
    position.append("/");
    position.append(decimal_string(total_cars as u64).as_str());

    let mut current_lap_time = String::from_str("LAP TIME ");
    current_lap_time.append(format_time(player_snap.current_lap_time).as_str());

    let mut best_lap_time = String::from_str("BEST ");
    best_lap_time.append(format_opt_lap_time(player_snap.best_lap_time).as_str());

    let mut speed = String::from_str("SPEED ");
    speed.append(decimal_string(player_snap.forward_speed as u64).as_str());
    speed.append(" u/s");

    HudData { lap, position, current_lap_time, best_lap_time, speed }
}

/// Countdown overlay text: `3`, `2`, `1` over successive thirds of the
/// standard countdown, `GO!` while racing, nothing once finished.
pub open spec fn countdown_text(phase: RacePhase) -> Seq<char> {
    match phase {
        RacePhase::Countdown { ticks_remaining } => {
            let elapsed: int = if ticks_remaining <= DEFAULT_COUNTDOWN_TICKS {
                DEFAULT_COUNTDOWN_TICKS - ticks_remaining
            } else {
                0
            };
            let third: int = (DEFAULT_COUNTDOWN_TICKS / 3) as int;
            if elapsed < third {
                "3"@
            } else if elapsed < third * 2 {
                "2"@
            } else {
                "1"@
            }
        },
        RacePhase::Racing => "GO!"@,
        RacePhase::Finished => ""@,
    }
}

/// Maps a race phase to the countdown overlay text.
pub fn countdown_display(phase: RacePhase) -> (s: &'static str)
    ensures
        s@ == countdown_text(phase),
{
    match phase {
        RacePhase::Countdown { ticks_remaining } => {
            let elapsed = DEFAULT_COUNTDOWN_TICKS.saturating_sub(ticks_remaining);
            let third = DEFAULT_COUNTDOWN_TICKS / 3;
            if elapsed < third {
                "3"
            } else if elapsed < third * 2 {
                "2"
            } else {
                "1"
            }
        },
        RacePhase::Racing => "GO!",
        RacePhase::Finished => "",
    }
}

/// Seconds the green flash stays up once racing has begun.
pub const GO_SECONDS: u32 = 2;

/// The overlay text: the countdown display, cleared once the race has been
/// green for more than two seconds of racing ticks (time since the green,
/// not the lap clock, which restarts at every lap line).
pub fn countdown_overlay(phase: RacePhase, racing_ticks: u32) -> (s: &'static str)
    ensures
        s@ == (if phase == RacePhase::Racing && racing_ticks > GO_SECONDS * FIXED_HZ {
            ""@
        } else {
            countdown_text(phase)
        }),
{
    match phase {
        RacePhase::Racing => {
            if racing_ticks > GO_SECONDS * FIXED_HZ {
                ""
            } else {
                countdown_display(phase)
            }
        },
        _ => countdown_display(phase),
    }
}

} // verus!
