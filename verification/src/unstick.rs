//! The AI driver's escape from a stall: a Car that stays slow for too long,
//! or sits off the Track facing away from the road, reverses out for a
//! fixed number of ticks before driving on.

use vstd::prelude::*;

verus! {

/// Slow ticks tolerated before the driver reverses out.
pub const STUCK_TICKS_LIMIT: u32 = 48;

/// Ticks a reversal lasts.
pub const REVERSE_TICKS: u32 = 64;

/// The driver's stall counters.
#[derive(Debug, Clone, Copy, PartialEq, Eq, Structural)]
pub struct StuckWatch {
    /// Consecutive slow ticks.
    pub stuck_ticks: u32,
    /// Ticks left of the reversal under way.
    pub reverse_ticks: u32,
}

/// One tick of the watch (`slow`: the Car barely moves along its heading;
/// `wrong_way`: it is off the Track, facing away from the road, and not
/// fast): the next counters and whether the Car reverses this tick. A
/// reversal under way runs down and, when it ends, clears the slow count;
/// otherwise the slow count grows or resets, and a reversal starts when it
/// passes the limit or the Car is the wrong way round.
pub open spec fn watch_step(w: StuckWatch, slow: bool, wrong_way: bool) -> (StuckWatch, bool) {
    if w.reverse_ticks > 0 {
        let left = (w.reverse_ticks - 1) as u32;
        (StuckWatch { stuck_ticks: if left == 0 { 0 } else { w.stuck_ticks }, reverse_ticks: left }, true)
    } else {
        let stuck: u32 = if !slow {
            0
        } else if w.stuck_ticks == u32::MAX {
            u32::MAX
        } else {
            (w.stuck_ticks + 1) as u32
        };
        if stuck > STUCK_TICKS_LIMIT || wrong_way {
            (StuckWatch { stuck_ticks: stuck, reverse_ticks: REVERSE_TICKS }, true)
        } else {
            (StuckWatch { stuck_ticks: stuck, reverse_ticks: 0 }, false)
        }
    }
}

impl StuckWatch {
    /// A driver that has not stalled.
    pub fn new() -> (w: StuckWatch)
        ensures
            w == (StuckWatch { stuck_ticks: 0, reverse_ticks: 0 }),
    {
        StuckWatch { stuck_ticks: 0, reverse_ticks: 0 }
    }

    /// Advances one tick; returns whether the Car reverses this tick.
    pub fn step(&mut self, slow: bool, wrong_way: bool) -> (reverse: bool)
        ensures
            (*final(self), reverse) == watch_step(*old(self), slow, wrong_way),
    {
        if self.reverse_ticks > 0 {
            self.reverse_ticks = self.reverse_ticks - 1;
            if self.reverse_ticks == 0 {
                self.stuck_ticks = 0;
            }
            return true;
        }
        if slow {
            self.stuck_ticks = self.stuck_ticks.saturating_add(1);
        } else {
            self.stuck_ticks = 0;
        }
        if self.stuck_ticks > STUCK_TICKS_LIMIT || wrong_way {
            self.reverse_ticks = REVERSE_TICKS;
            return true;
        }
        false
    }
}

/// The watch after a run of ticks, each given as (`slow`, `wrong_way`).
pub open spec fn watch_run(w: StuckWatch, ticks: Seq<(bool, bool)>) -> StuckWatch
    decreases ticks.len(),
{
    if ticks.len() == 0 {
        w
    } else {
        let before = watch_run(w, ticks.drop_last());
        watch_step(before, ticks.last().0, ticks.last().1).0
    }
}

/// A reversal, once started, lasts exactly `REVERSE_TICKS` ticks whatever
/// the Car does: every one of them reverses, and after the last the slow
/// count starts again from zero.
pub proof fn reversal_lasts_its_ticks(start: StuckWatch, ticks: Seq<(bool, bool)>)
    requires
        start.reverse_ticks == REVERSE_TICKS,
        ticks.len() <= REVERSE_TICKS,
    ensures
        watch_run(start, ticks).reverse_ticks == REVERSE_TICKS - ticks.len(),
        ticks.len() < REVERSE_TICKS ==> watch_step(watch_run(start, ticks), true, true).1
            && watch_step(watch_run(start, ticks), false, false).1,
        ticks.len() == REVERSE_TICKS ==> watch_run(start, ticks).stuck_ticks == 0,
    decreases ticks.len(),
{
    if ticks.len() > 0 {
        reversal_lasts_its_ticks(start, ticks.drop_last());
    }
}

/// A Car that keeps moving and faces the right way never reverses, and a
/// Car that stays slow reverses on the first tick its slow count passes
/// the limit, not before.
pub proof fn only_stalled_cars_reverse(w: StuckWatch, slow: bool, wrong_way: bool)
    requires
        w.reverse_ticks == 0,
    ensures
        !slow && !wrong_way ==> watch_step(w, slow, wrong_way) == (
        StuckWatch { stuck_ticks: 0, reverse_ticks: 0 },
        false,
    ),
        slow && !wrong_way && w.stuck_ticks < STUCK_TICKS_LIMIT ==> !watch_step(
            w,
            slow,
            wrong_way,
        ).1,
        slow && w.stuck_ticks == STUCK_TICKS_LIMIT ==> watch_step(w, slow, wrong_way).1,
{
}


/// A Car the wrong way round reverses at once: with no reversal under way,
/// a wrong-way tick starts a full reversal whatever its slow count, and a
/// slow tick adds one to the slow count.
pub proof fn wrong_way_reverses_at_once(w: StuckWatch, slow: bool)
    requires
        w.reverse_ticks == 0,
    ensures
        watch_step(w, slow, true).1,
        watch_step(w, slow, true).0.reverse_ticks == REVERSE_TICKS,
        slow && w.stuck_ticks < u32::MAX ==> watch_step(w, slow, true).0.stuck_ticks
            == w.stuck_ticks + 1,
        !slow ==> watch_step(w, slow, true).0.stuck_ticks == 0,
{
}

} // verus!
