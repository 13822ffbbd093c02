//! Race rules at the fixed step: the countdown, ordered checkpoint
//! progress, lap counting and timing in ticks, and the finish.

use vstd::prelude::*;

use crate::eligibility::LapMarks;

verus! {

/// Standard race length in completed laps.
pub const TOTAL_LAPS: u32 = 3;

/// Default countdown duration in ticks (3.0 seconds at 64 Hz).
pub const DEFAULT_COUNTDOWN_TICKS: u32 = 192;

/// Fixed simulation rate in steps per second.
pub const FIXED_HZ: u32 = 64;

/// The high-level phase of a Race.
#[derive(Debug, Clone, Copy, PartialEq, Eq, Structural)]
pub enum RacePhase {
    /// Fixed-tick countdown before racing begins. Controls are locked.
    Countdown { ticks_remaining: u32 },
    /// Active racing across the laps.
    Racing,
    /// The race has concluded.
    Finished,
}

impl RacePhase {
    /// Progress order of the phases: countdown, racing, finished.
    pub open spec fn rank(self) -> int {
        match self {
            RacePhase::Countdown { .. } => 0,
            RacePhase::Racing => 1,
            RacePhase::Finished => 2,
        }
    }

    /// The phase after the start-of-tick countdown step, and whether the
    /// controls are locked for this tick.
    pub open spec fn spec_advance(self) -> (RacePhase, bool) {
        match self {
            RacePhase::Countdown { ticks_remaining } => if ticks_remaining > 1 {
                (RacePhase::Countdown { ticks_remaining: (ticks_remaining - 1) as u32 }, true)
            } else {
                (RacePhase::Racing, false)
            },
            other => (other, false),
        }
    }

    /// Counts the countdown down by one tick; the tick that empties it is
    /// the first racing tick.
    pub fn advance(self) -> (r: (RacePhase, bool))
        ensures
            r == self.spec_advance(),
    {
        match self {
            RacePhase::Countdown { ticks_remaining } => {
                if ticks_remaining > 0 {
                    let left = ticks_remaining - 1;
                    if left == 0 {
                        (RacePhase::Racing, false)
                    } else {
                        (RacePhase::Countdown { ticks_remaining: left }, true)
                    }
                } else {
                    (RacePhase::Racing, false)
                }
            },
            other => (other, false),
        }
    }
}

/// The phase after `k` start-of-tick steps.
pub open spec fn advanced(phase: RacePhase, k: nat) -> RacePhase
    decreases k,
{
    if k == 0 {
        phase
    } else {
        advanced(phase, (k - 1) as nat).spec_advance().0
    }
}

/// A countdown of `n` ticks stays locked for `n - 1` ticks and goes green
/// on the `n`-th: after `k < n` steps `n - k` ticks remain.
pub proof fn countdown_runs_its_ticks(n: u32, k: nat)
    requires
        n >= 1,
        k <= n,
    ensures
        k < n ==> advanced(RacePhase::Countdown { ticks_remaining: n }, k) == (RacePhase::Countdown {
            ticks_remaining: (n - k) as u32,
        }),
        k == n ==> advanced(RacePhase::Countdown { ticks_remaining: n }, k) == RacePhase::Racing,
        k + 1 < n ==> advanced(RacePhase::Countdown { ticks_remaining: n }, k).spec_advance().1,
        k + 1 == n ==> !advanced(RacePhase::Countdown { ticks_remaining: n }, k).spec_advance().1,
    decreases k,
{
    if k > 0 {
        countdown_runs_its_ticks(n, (k - 1) as nat);
    }
}

/// Once racing or finished, the start-of-tick step changes nothing and
/// never locks the controls; no step moves a phase backwards.
pub proof fn phase_never_regresses(phase: RacePhase)
    ensures
        phase.spec_advance().0.rank() >= phase.rank(),
        phase.rank() >= 1 ==> phase.spec_advance() == (phase, false),
{
}

/// One Car's ordered lap progress.
pub struct LapProgress {
    /// Fully completed laps.
    pub completed_laps: u32,
    /// Ticks spent on the lap in progress.
    pub current_lap_ticks: u32,
    /// Polyline vertex the Car must reach next (0 is the start/finish line).
    pub next_checkpoint: usize,
    /// Vertex most recently reached in order.
    pub last_cleared_checkpoint: usize,
    /// Tick count of each completed lap, one slot per lap of the race.
    pub lap_ticks: Vec<Option<u32>>,
    /// Fewest ticks of any completed lap.
    pub best_lap_ticks: Option<u32>,
}

/// The best of the first `k` recorded laps.
pub open spec fn best_of(laps: Seq<Option<u32>>, k: int) -> Option<u32>
    decreases k,
{
    if k <= 0 {
        None
    } else {
        let t = laps[k - 1].unwrap();
        match best_of(laps, k - 1) {
            None => Some(t),
            Some(b) => Some(if b <= t {
                b
            } else {
                t
            }),
        }
    }
}

proof fn lemma_best_of_prefix(a: Seq<Option<u32>>, b: Seq<Option<u32>>, k: int)
    requires
        0 <= k <= a.len(),
        k <= b.len(),
        forall|j: int| 0 <= j < k ==> a[j] == b[j],
    ensures
        best_of(a, k) == best_of(b, k),
    decreases k,
{
    if k > 0 {
        lemma_best_of_prefix(a, b, k - 1);
    }
}

impl LapProgress {
    /// A Car on the grid: no laps, heading for vertex 1.
    pub fn new() -> (p: LapProgress)
        ensures
            p.completed_laps == 0,
            p.current_lap_ticks == 0,
            p.next_checkpoint == 1,
            p.last_cleared_checkpoint == 0,
            p.lap_ticks@ == seq![None::<u32>, None, None],
            p.best_lap_ticks is None,
    {
        let mut lap_ticks: Vec<Option<u32>> = Vec::new();
        lap_ticks.push(None);
        lap_ticks.push(None);
        lap_ticks.push(None);
        LapProgress {
            completed_laps: 0,
            current_lap_ticks: 0,
            next_checkpoint: 1,
            last_cleared_checkpoint: 0,
            lap_ticks,
            best_lap_ticks: None,
        }
    }

    /// An independent copy.
    pub fn duplicate(&self) -> (c: LapProgress)
        ensures
            c.completed_laps == self.completed_laps,
            c.current_lap_ticks == self.current_lap_ticks,
            c.next_checkpoint == self.next_checkpoint,
            c.last_cleared_checkpoint == self.last_cleared_checkpoint,
            c.lap_ticks@ == self.lap_ticks@,
            c.best_lap_ticks == self.best_lap_ticks,
    {
        let mut lap_ticks: Vec<Option<u32>> = Vec::new();
        let mut i: usize = 0;
        while i < self.lap_ticks.len()
            invariant
                i <= self.lap_ticks@.len(),
                lap_ticks@ == self.lap_ticks@.take(i as int),
            decreases self.lap_ticks@.len() - i,
        {
            lap_ticks.push(self.lap_ticks[i]);
            i = i + 1;
            assert(lap_ticks@ =~= self.lap_ticks@.take(i as int));
        }
        assert(self.lap_ticks@.take(self.lap_ticks@.len() as int) =~= self.lap_ticks@);
        LapProgress {
            completed_laps: self.completed_laps,
            current_lap_ticks: self.current_lap_ticks,
            next_checkpoint: self.next_checkpoint,
            last_cleared_checkpoint: self.last_cleared_checkpoint,
            lap_ticks,
            best_lap_ticks: self.best_lap_ticks,
        }
    }

    /// Invariant of the progress of a Car on a loop of `checkpoints` vertices.
    pub open spec fn well_formed(self, checkpoints: int) -> bool {
        &&& self.completed_laps <= TOTAL_LAPS
        &&& self.lap_ticks@.len() == TOTAL_LAPS
        &&& forall|k: int|
            0 <= k < TOTAL_LAPS ==> ((#[trigger] self.lap_ticks@[k]) is Some <==> k
                < self.completed_laps)
        &&& self.best_lap_ticks == best_of(self.lap_ticks@, self.completed_laps as int)
        &&& self.next_checkpoint <= checkpoints
        &&& self.last_cleared_checkpoint <= checkpoints
    }

    /// One racing tick: the lap clock runs, and reaching the next
    /// checkpoint in order advances progress; reaching the start/finish line
    /// after the last vertex completes a lap (at most `TOTAL_LAPS`).
    pub open spec fn stepped(self, next: LapProgress, reached: bool, checkpoints: int) -> bool {
        let ticks = self.current_lap_ticks + 1;
        let target = self.next_checkpoint;
        if !reached {
            &&& next.completed_laps == self.completed_laps
            &&& next.current_lap_ticks == ticks
            &&& next.next_checkpoint == target
            &&& next.last_cleared_checkpoint == self.last_cleared_checkpoint
            &&& next.lap_ticks@ == self.lap_ticks@
            &&& next.best_lap_ticks == self.best_lap_ticks
        } else if target != 0 {
            &&& next.completed_laps == self.completed_laps
            &&& next.current_lap_ticks == ticks
            &&& next.next_checkpoint == (target + 1) % checkpoints
            &&& next.last_cleared_checkpoint == target
            &&& next.lap_ticks@ == self.lap_ticks@
            &&& next.best_lap_ticks == self.best_lap_ticks
        } else if self.completed_laps < TOTAL_LAPS {
            &&& next.completed_laps == self.completed_laps + 1
            &&& next.current_lap_ticks == 0
            &&& next.next_checkpoint == 1
            &&& next.last_cleared_checkpoint == 0
            &&& next.lap_ticks@ == self.lap_ticks@.update(
                self.completed_laps as int,
                Some(ticks as u32),
            )
            &&& next.best_lap_ticks == Some(
                match self.best_lap_ticks {
                    Some(b) => if b <= ticks {
                        b
                    } else {
                        ticks as u32
                    },
                    None => ticks as u32,
                },
            )
        } else {
            &&& next.completed_laps == self.completed_laps
            &&& next.current_lap_ticks == ticks
            &&& next.next_checkpoint == 1
            &&& next.last_cleared_checkpoint == 0
            &&& next.lap_ticks@ == self.lap_ticks@
            &&& next.best_lap_ticks == self.best_lap_ticks
        }
    }

    /// Advances one racing tick.
    pub fn step(&mut self, reached: bool, checkpoints: usize)
        requires
            1 <= checkpoints < usize::MAX,
            old(self).well_formed(checkpoints as int),
            old(self).current_lap_ticks < u32::MAX,
        ensures
            old(self).stepped(*final(self), reached, checkpoints as int),
            final(self).well_formed(checkpoints as int),
    {
        let ghost before = *self;
        self.current_lap_ticks = self.current_lap_ticks + 1;
        if reached {
            let target = self.next_checkpoint;
            self.last_cleared_checkpoint = target;
            if target == 0 {
                if self.completed_laps < TOTAL_LAPS {
                    let lap = self.current_lap_ticks;
                    let slot = self.completed_laps as usize;
                    self.lap_ticks.set(slot, Some(lap));
                    self.best_lap_ticks = Some(
                        match self.best_lap_ticks {
                            Some(best) => if best <= lap {
                                best
                            } else {
                                lap
                            },
                            None => lap,
                        },
                    );
                    self.completed_laps = self.completed_laps + 1;
                    self.current_lap_ticks = 0;
                    proof {
                        let laps = self.lap_ticks@;
                        lemma_best_of_prefix(laps, before.lap_ticks@, slot as int);
                        assert(laps[slot as int] == Some(lap));
                    }
                }
                self.next_checkpoint = 1;
            } else {
                self.next_checkpoint = (target + 1) % checkpoints;
            }
        }
    }
}

/// Ticks the rest of the field may still drive after the first Car takes
/// the flag (thirty seconds at 64 Hz).
pub const FINISH_WINDOW_TICKS: u32 = 1920;

/// Where a Car stands with respect to the flag.
#[derive(Debug, Clone, Copy, PartialEq, Eq, Structural)]
pub enum FinishStatus {
    /// Still driving for the flag.
    Racing,
    /// Took the flag; `place` counts from 1 in order of arrival.
    Finished { place: usize },
    /// Still on the track when the finish window closed.
    Dnf,
}

/// Ticks of preparation after a resume before race time runs again (one
/// second at 64 Hz).
pub const PREPARATION_TICKS: u32 = 64;

/// Simulation ticks before a recovered Car may be recovered again (three
/// seconds at 64 Hz).
pub const RECOVERY_COOLDOWN_TICKS: u32 = 192;

/// Whether race time runs.
#[derive(Debug, Clone, Copy, PartialEq, Eq, Structural)]
pub enum RaceHold {
    /// Race time runs.
    Live,
    /// Paused: race time stands still.
    Paused,
    /// Resumed: race time stands still for the remaining preparation ticks.
    Preparing { ticks_remaining: u32 },
}

impl RaceHold {
    /// The hold after one tick, and whether race time stood still in it.
    pub open spec fn spec_hold_tick(self) -> (RaceHold, bool) {
        match self {
            RaceHold::Live => (RaceHold::Live, false),
            RaceHold::Paused => (RaceHold::Paused, true),
            RaceHold::Preparing { ticks_remaining } => if ticks_remaining > 1 {
                (RaceHold::Preparing { ticks_remaining: (ticks_remaining - 1) as u32 }, true)
            } else {
                (RaceHold::Live, true)
            },
        }
    }
}

/// The hold after `k` ticks.
pub open spec fn held(hold: RaceHold, k: nat) -> RaceHold
    decreases k,
{
    if k == 0 {
        hold
    } else {
        held(hold, (k - 1) as nat).spec_hold_tick().0
    }
}

/// Pause freezes race time, and a resume prepares for exactly
/// `PREPARATION_TICKS` ticks: a paused race stays paused and frozen, and
/// after a resume the first `PREPARATION_TICKS` ticks stand still and the
/// next one runs.
pub proof fn resume_prepares_for_its_ticks(k: nat)
    requires
        k <= PREPARATION_TICKS,
    ensures
        RaceHold::Paused.spec_hold_tick() == (RaceHold::Paused, true),
        k < PREPARATION_TICKS ==> held(
            RaceHold::Preparing { ticks_remaining: PREPARATION_TICKS },
            k,
        ) == (RaceHold::Preparing { ticks_remaining: (PREPARATION_TICKS - k) as u32 }),
        k < PREPARATION_TICKS ==> held(
            RaceHold::Preparing { ticks_remaining: PREPARATION_TICKS },
            k,
        ).spec_hold_tick().1,
        held(RaceHold::Preparing { ticks_remaining: PREPARATION_TICKS }, PREPARATION_TICKS as nat)
            == RaceHold::Live,
        !RaceHold::Live.spec_hold_tick().1,
    decreases k,
{
    if k > 0 {
        resume_prepares_for_its_ticks((k - 1) as nat);
    }
    assert(held(RaceHold::Preparing { ticks_remaining: PREPARATION_TICKS }, PREPARATION_TICKS as nat)
        == RaceHold::Live) by {
        lemma_preparing_counts_down(PREPARATION_TICKS as nat);
    }
}

proof fn lemma_preparing_counts_down(k: nat)
    requires
        k <= PREPARATION_TICKS,
    ensures
        k < PREPARATION_TICKS ==> held(RaceHold::Preparing { ticks_remaining: PREPARATION_TICKS }, k)
            == (RaceHold::Preparing { ticks_remaining: (PREPARATION_TICKS - k) as u32 }),
        k == PREPARATION_TICKS ==> held(
            RaceHold::Preparing { ticks_remaining: PREPARATION_TICKS },
            k,
        ) == RaceHold::Live,
    decreases k,
{
    if k > 0 {
        lemma_preparing_counts_down((k - 1) as nat);
    }
}

/// A cooldown after `k` running ticks.
pub open spec fn cooled(cooldown: u32, k: nat) -> u32
    decreases k,
{
    if k == 0 {
        cooldown
    } else {
        let c = cooled(cooldown, (k - 1) as nat);
        if c > 0 {
            (c - 1) as u32
        } else {
            0
        }
    }
}

/// Why a recovery was refused.
#[derive(Debug, Clone, Copy, PartialEq, Eq, Structural)]
pub enum RecoveryError {
    /// The Car was recovered less than the cooldown ago.
    Cooldown,
    /// The Car is moving at 1 world unit/s or more.
    TooFast,
    /// Another Car stands on the recovery destination.
    Occupied,
}

/// The answer to a recovery request: the cooldown must have run out, the
/// Car must be slow and the destination free, checked in that order.
pub open spec fn recovery_answer(cooldown: u32, slow: bool, destination_free: bool) -> Result<
    (),
    RecoveryError,
> {
    if cooldown > 0 {
        Err(RecoveryError::Cooldown)
    } else if !slow {
        Err(RecoveryError::TooFast)
    } else if !destination_free {
        Err(RecoveryError::Occupied)
    } else {
        Ok(())
    }
}

/// A recovered Car cannot be recovered again for three seconds of race
/// time: for the first `RECOVERY_COOLDOWN_TICKS` running ticks after a
/// recovery every request is refused with `Cooldown`, and after them the
/// cooldown no longer stands in the way.
pub proof fn recovery_cooldown_runs_its_ticks(k: nat, slow: bool, destination_free: bool)
    requires
        k <= RECOVERY_COOLDOWN_TICKS,
    ensures
        cooled(RECOVERY_COOLDOWN_TICKS, k) == RECOVERY_COOLDOWN_TICKS - k,
        k < RECOVERY_COOLDOWN_TICKS ==> recovery_answer(
            cooled(RECOVERY_COOLDOWN_TICKS, k),
            slow,
            destination_free,
        ) == Err::<(), RecoveryError>(RecoveryError::Cooldown),
        k == RECOVERY_COOLDOWN_TICKS ==> recovery_answer(
            cooled(RECOVERY_COOLDOWN_TICKS, k),
            slow,
            destination_free,
        ) == recovery_answer(0, slow, destination_free),
    decreases k,
{
    if k > 0 {
        recovery_cooldown_runs_its_ticks((k - 1) as nat, slow, destination_free);
    }
}

/// Number of Cars that have taken the flag.
pub open spec fn finished_count(s: Seq<FinishStatus>) -> nat
    decreases s.len(),
{
    if s.len() == 0 {
        0
    } else {
        finished_count(s.drop_last()) + if s.last() is Finished {
            1nat
        } else {
            0nat
        }
    }
}

/// Every finisher holds its own place between 1 and `finishers`.
pub open spec fn places_valid(finish: Seq<FinishStatus>, finishers: int) -> bool {
    &&& forall|i: int|
        0 <= i < finish.len() && (#[trigger] finish[i]) is Finished ==> 1 <= finish[i]->place
            <= finishers
    &&& forall|i: int, j: int|
        #![trigger finish[i], finish[j]]
        0 <= i < finish.len() && 0 <= j < finish.len() && i != j && finish[i] is Finished
            && finish[j] is Finished ==> finish[i]->place != finish[j]->place
}

proof fn lemma_count_le(s: Seq<FinishStatus>)
    ensures
        finished_count(s) <= s.len(),
    decreases s.len(),
{
    if s.len() > 0 {
        lemma_count_le(s.drop_last());
    }
}

proof fn lemma_count_below(s: Seq<FinishStatus>, i: int)
    requires
        0 <= i < s.len(),
        !(s[i] is Finished),
    ensures
        finished_count(s) < s.len(),
    decreases s.len(),
{
    lemma_count_le(s.drop_last());
    if i < s.len() - 1 {
        lemma_count_below(s.drop_last(), i);
    }
}

proof fn lemma_count_update(s: Seq<FinishStatus>, i: int, v: FinishStatus)
    requires
        0 <= i < s.len(),
    ensures
        finished_count(s.update(i, v)) + (if s[i] is Finished {
            1int
        } else {
            0int
        }) == finished_count(s) + (if v is Finished {
            1int
        } else {
            0int
        }),
    decreases s.len(),
{
    let t = s.update(i, v);
    if i == s.len() - 1 {
        assert(t.drop_last() =~= s.drop_last());
    } else {
        assert(t.drop_last() =~= s.drop_last().update(i, v));
        lemma_count_update(s.drop_last(), i, v);
    }
}

proof fn lemma_count_none(s: Seq<FinishStatus>)
    requires
        forall|i: int| 0 <= i < s.len() ==> (#[trigger] s[i]) == FinishStatus::Racing,
    ensures
        finished_count(s) == 0,
    decreases s.len(),
{
    if s.len() > 0 {
        lemma_count_none(s.drop_last());
    }
}

/// Whole-field race state: the phase, every Car's lap progress and its
/// standing with respect to the flag.
pub struct RaceState {
    pub phase: RacePhase,
    /// Ordered checkpoints per lap: the polyline's segment count (at least 1).
    pub checkpoints: usize,
    pub cars: Vec<LapProgress>,
    /// Each Car's standing, in grid order.
    pub finish: Vec<FinishStatus>,
    /// Cars that have taken the flag so far.
    pub finishers: usize,
    /// Ticks left in the finish window once the first Car has finished.
    pub window_remaining: u32,
    /// Each Car's lap eligibility, in grid order.
    pub marks: Vec<LapMarks>,
    /// Ticks until each Car may be recovered again.
    pub recovery_cooldown: Vec<u32>,
    /// Whether race time runs, stands paused, or prepares to resume.
    pub hold: RaceHold,
}

impl RaceState {
    pub open spec fn well_formed(self) -> bool {
        &&& 1 <= self.checkpoints < usize::MAX
        &&& forall|i: int|
            0 <= i < self.cars@.len() ==> (#[trigger] self.cars@[i]).well_formed(
                self.checkpoints as int,
            )
        &&& self.finish@.len() == self.cars@.len()
        &&& self.finishers == finished_count(self.finish@)
        &&& places_valid(self.finish@, self.finishers as int)
        &&& self.window_remaining <= FINISH_WINDOW_TICKS
        &&& self.phase == RacePhase::Racing && self.finishers > 0 ==> self.window_remaining >= 1
        &&& self.phase is Countdown ==> self.finishers == 0
        &&& self.phase != RacePhase::Finished ==> forall|i: int|
            0 <= i < self.finish@.len() ==> !((#[trigger] self.finish@[i]) is Dnf)
        &&& self.marks@.len() == self.cars@.len()
        &&& forall|i: int| 0 <= i < self.marks@.len() ==> (#[trigger] self.marks@[i]).well_formed()
        &&& self.recovery_cooldown@.len() == self.cars@.len()
    }

    /// Car `i` takes the flag this tick: it was still racing and completed
    /// a lap that is its last, or any lap once the window is open.
    pub open spec fn takes_flag(self, next_cars: Seq<LapProgress>, i: int) -> bool {
        &&& self.finish@[i] is Racing
        &&& next_cars[i].completed_laps > self.cars@[i].completed_laps
        &&& (next_cars[i].completed_laps >= TOTAL_LAPS || self.finishers > 0)
    }

    /// How many of the first `k` Cars take the flag this tick.
    pub open spec fn flags_before(self, next_cars: Seq<LapProgress>, k: int) -> nat
        decreases k,
    {
        if k <= 0 {
            0
        } else {
            self.flags_before(next_cars, k - 1) + if self.takes_flag(next_cars, k - 1) {
                1nat
            } else {
                0nat
            }
        }
    }

    /// Car `i`'s standing once this tick's flags are handed out in grid order.
    pub open spec fn flagged(self, next_cars: Seq<LapProgress>, i: int) -> FinishStatus {
        if self.takes_flag(next_cars, i) {
            FinishStatus::Finished {
                place: (self.finishers + self.flags_before(next_cars, i) + 1) as usize,
            }
        } else {
            self.finish@[i]
        }
    }

    /// The window after this tick, given the flags taken in it: it opens at
    /// the first flag and then runs down one tick per tick.
    pub open spec fn window_after(self, flags: nat) -> u32 {
        if self.finishers > 0 {
            if self.window_remaining > 0 {
                (self.window_remaining - 1) as u32
            } else {
                0
            }
        } else if flags > 0 {
            FINISH_WINDOW_TICKS
        } else {
            0
        }
    }

    /// The race ends this tick: someone has finished and either the window
    /// has run out or no Car is left racing.
    pub open spec fn closes(self, next_cars: Seq<LapProgress>) -> bool {
        let flags = self.flags_before(next_cars, self.cars@.len() as int);
        &&& self.finishers + flags > 0
        &&& (self.window_after(flags) == 0 || forall|i: int|
            0 <= i < self.cars@.len() ==> !(#[trigger] self.flagged(next_cars, i) is Racing))
    }

    /// What one end-of-tick step makes of the state. While racing, every Car
    /// still racing advances its lap progress, flags go out in grid order,
    /// the window runs, and when it closes the Cars still racing are DNF;
    /// in any other phase nothing changes.
    pub open spec fn ended(self, next: RaceState, reached: Seq<bool>, assisted: Seq<bool>) -> bool {
        let n = self.cars@.len();
        let flags = self.flags_before(next.cars@, n as int);
        &&& next.checkpoints == self.checkpoints
        &&& next.cars@.len() == n
        &&& next.finish@.len() == n
        &&& next.marks@.len() == n
        &&& next.recovery_cooldown@ == self.recovery_cooldown@
        &&& next.hold == self.hold
        &&& if self.phase == RacePhase::Racing {
            &&& forall|i: int|
                0 <= i < n ==> if self.finish@[i] is Racing {
                    (#[trigger] self.cars@[i]).stepped(
                        next.cars@[i],
                        reached_at(reached, i),
                        self.checkpoints as int,
                    )
                } else {
                    next.cars@[i] == self.cars@[i]
                }
            &&& forall|i: int|
                0 <= i < n ==> if self.finish@[i] is Racing {
                    (#[trigger] self.marks@[i]).noted(
                        next.marks@[i],
                        reached_at(assisted, i),
                        lap_done(self.cars@[i], next.cars@[i]),
                    )
                } else {
                    next.marks@[i] == self.marks@[i]
                }
            &&& next.finishers == self.finishers + flags
            &&& next.window_remaining == self.window_after(flags)
            &&& forall|i: int|
                0 <= i < n ==> (#[trigger] next.finish@[i]) == if self.closes(next.cars@)
                    && self.flagged(next.cars@, i) is Racing {
                    FinishStatus::Dnf
                } else {
                    self.flagged(next.cars@, i)
                }
            &&& next.phase == if self.closes(next.cars@) {
                RacePhase::Finished
            } else {
                RacePhase::Racing
            }
        } else {
            &&& next.cars@ == self.cars@
            &&& next.marks@ == self.marks@
            &&& next.finish@ == self.finish@
            &&& next.finishers == self.finishers
            &&& next.window_remaining == self.window_remaining
            &&& next.phase == self.phase
        }
    }

    proof fn lemma_flags_monotone(self, next_cars: Seq<LapProgress>, j: int, k: int)
        requires
            0 <= j <= k,
        ensures
            self.flags_before(next_cars, j) <= self.flags_before(next_cars, k),
            self.flags_before(next_cars, k) <= k,
        decreases k,
    {
        if k > 0 {
            if j < k {
                self.lemma_flags_monotone(next_cars, j, k - 1);
            } else {
                self.lemma_flags_monotone(next_cars, k - 1, k - 1);
            }
        }
    }

    /// A field of `car_count` Cars on a loop of `segment_count` segments.
    pub fn new(car_count: usize, segment_count: usize, phase: RacePhase) -> (s: RaceState)
        requires
            segment_count < usize::MAX,
        ensures
            s.well_formed(),
            s.phase == phase,
            s.checkpoints == if segment_count >= 1 {
                segment_count
            } else {
                1
            },
            s.cars@.len() == car_count,
            forall|i: int|
                0 <= i < car_count ==> (#[trigger] s.cars@[i]).completed_laps == 0
                    && s.cars@[i].current_lap_ticks == 0 && s.cars@[i].next_checkpoint == 1
                    && s.cars@[i].last_cleared_checkpoint == 0 && s.cars@[i].best_lap_ticks is None,
            forall|i: int| 0 <= i < car_count ==> (#[trigger] s.finish@[i]) == FinishStatus::Racing,
            s.finishers == 0,
            s.window_remaining == 0,
            forall|i: int|
                0 <= i < car_count ==> !(#[trigger] s.marks@[i]).current_assisted
                    && !s.marks@[i].current_invalidated && s.marks@[i].eligible_laps@.len() == 0,
            forall|i: int| 0 <= i < car_count ==> #[trigger] s.recovery_cooldown@[i] == 0,
            s.hold == RaceHold::Live,
    {
        let checkpoints = if segment_count >= 1 {
            segment_count
        } else {
            1
        };
        let mut cars: Vec<LapProgress> = Vec::new();
        let mut finish: Vec<FinishStatus> = Vec::new();
        let mut marks: Vec<LapMarks> = Vec::new();
        let mut recovery_cooldown: Vec<u32> = Vec::new();
        let mut i: usize = 0;
        while i < car_count
            invariant
                i <= car_count,
                1 <= checkpoints < usize::MAX,
                cars@.len() == i,
                finish@.len() == i,
                marks@.len() == i,
                recovery_cooldown@.len() == i,
                forall|j: int|
                    0 <= j < i ==> (#[trigger] marks@[j]).well_formed() && !marks@[j].current_assisted
                        && !marks@[j].current_invalidated && marks@[j].eligible_laps@.len() == 0,
                forall|j: int| 0 <= j < i ==> #[trigger] recovery_cooldown@[j] == 0,
                forall|j: int|
                    0 <= j < i ==> (#[trigger] cars@[j]).well_formed(checkpoints as int)
                        && cars@[j].completed_laps == 0 && cars@[j].current_lap_ticks == 0
                        && cars@[j].next_checkpoint == 1 && cars@[j].last_cleared_checkpoint == 0
                        && cars@[j].best_lap_ticks is None,
                forall|j: int| 0 <= j < i ==> (#[trigger] finish@[j]) == FinishStatus::Racing,
            decreases car_count - i,
        {
            let p = LapProgress::new();
            proof {
                assert(p.lap_ticks@[0] is None && p.lap_ticks@[1] is None && p.lap_ticks@[2] is None);
            }
            cars.push(p);
            finish.push(FinishStatus::Racing);
            marks.push(LapMarks::new());
            recovery_cooldown.push(0);
            i = i + 1;
        }
        proof {
            lemma_count_none(finish@);
        }
        RaceState {
            phase,
            checkpoints,
            cars,
            finish,
            finishers: 0,
            window_remaining: 0,
            marks,
            recovery_cooldown,
            hold: RaceHold::Live,
        }
    }

    /// Start of a tick that runs: counts the countdown down, runs the
    /// recovery cooldowns down, and reports whether the controls are locked
    /// for this tick.
    pub fn begin_tick(&mut self) -> (locked: bool)
        requires
            old(self).well_formed(),
        ensures
            (final(self).phase, locked) == old(self).phase.spec_advance(),
            final(self).checkpoints == old(self).checkpoints,
            final(self).cars@ == old(self).cars@,
            final(self).finish@ == old(self).finish@,
            final(self).finishers == old(self).finishers,
            final(self).window_remaining == old(self).window_remaining,
            final(self).marks@ == old(self).marks@,
            final(self).hold == old(self).hold,
            final(self).recovery_cooldown@.len() == old(self).recovery_cooldown@.len(),
            forall|i: int|
                0 <= i < old(self).recovery_cooldown@.len() ==> #[trigger] final(self).recovery_cooldown@[i] == if old(self).recovery_cooldown@[i] > 0 {
                    (old(self).recovery_cooldown@[i] - 1) as u32
                } else {
                    0
                },
            final(self).well_formed(),
    {
        let ghost before = *self;
        let (phase, locked) = self.phase.advance();
        self.phase = phase;
        let mut i: usize = 0;
        while i < self.recovery_cooldown.len()
            invariant
                self.phase == phase,
                self.checkpoints == before.checkpoints,
                self.cars@ == before.cars@,
                self.finish@ == before.finish@,
                self.finishers == before.finishers,
                self.window_remaining == before.window_remaining,
                self.marks@ == before.marks@,
                self.hold == before.hold,
                self.recovery_cooldown@.len() == before.recovery_cooldown@.len(),
                i <= before.recovery_cooldown@.len(),
                forall|j: int|
                    0 <= j < i ==> #[trigger] self.recovery_cooldown@[j] == if before.recovery_cooldown@[j]
                        > 0 {
                        (before.recovery_cooldown@[j] - 1) as u32
                    } else {
                        0
                    },
                forall|j: int|
                    i <= j < before.recovery_cooldown@.len() ==> #[trigger] self.recovery_cooldown@[j]
                        == before.recovery_cooldown@[j],
            decreases before.recovery_cooldown@.len() - i,
        {
            let left = self.recovery_cooldown[i];
            if left > 0 {
                self.recovery_cooldown.set(i, left - 1);
            }
            i = i + 1;
        }
        locked
    }

    /// Start of every tick: reports whether race time stands still in it
    /// (paused, or preparing to resume), and counts the preparation down. A
    /// tick that stands still must change nothing else.
    pub fn hold_tick(&mut self) -> (frozen: bool)
        ensures
            (final(self).hold, frozen) == old(self).hold.spec_hold_tick(),
            final(self).phase == old(self).phase,
            final(self).checkpoints == old(self).checkpoints,
            final(self).cars@ == old(self).cars@,
            final(self).finish@ == old(self).finish@,
            final(self).finishers == old(self).finishers,
            final(self).window_remaining == old(self).window_remaining,
            final(self).marks@ == old(self).marks@,
            final(self).recovery_cooldown@ == old(self).recovery_cooldown@,
            old(self).well_formed() ==> final(self).well_formed(),
    {
        match self.hold {
            RaceHold::Live => false,
            RaceHold::Paused => true,
            RaceHold::Preparing { ticks_remaining } => {
                if ticks_remaining > 1 {
                    self.hold = RaceHold::Preparing { ticks_remaining: ticks_remaining - 1 };
                } else {
                    self.hold = RaceHold::Live;
                }
                true
            },
        }
    }

    /// Pauses a race that has not finished; race time stands still until a
    /// resume and its preparation.
    pub fn pause(&mut self)
        ensures
            final(self).hold == if old(self).phase == RacePhase::Finished {
                old(self).hold
            } else {
                RaceHold::Paused
            },
            final(self).phase == old(self).phase,
            final(self).checkpoints == old(self).checkpoints,
            final(self).cars@ == old(self).cars@,
            final(self).finish@ == old(self).finish@,
            final(self).finishers == old(self).finishers,
            final(self).window_remaining == old(self).window_remaining,
            final(self).marks@ == old(self).marks@,
            final(self).recovery_cooldown@ == old(self).recovery_cooldown@,
            old(self).well_formed() ==> final(self).well_formed(),
    {
        if self.phase != RacePhase::Finished {
            self.hold = RaceHold::Paused;
        }
    }

    /// Resumes a paused race: the preparation interval starts.
    pub fn resume(&mut self)
        ensures
            final(self).hold == if old(self).hold == RaceHold::Paused {
                RaceHold::Preparing { ticks_remaining: PREPARATION_TICKS }
            } else {
                old(self).hold
            },
            final(self).phase == old(self).phase,
            final(self).checkpoints == old(self).checkpoints,
            final(self).cars@ == old(self).cars@,
            final(self).finish@ == old(self).finish@,
            final(self).finishers == old(self).finishers,
            final(self).window_remaining == old(self).window_remaining,
            final(self).marks@ == old(self).marks@,
            final(self).recovery_cooldown@ == old(self).recovery_cooldown@,
            old(self).well_formed() ==> final(self).well_formed(),
    {
        if self.hold == RaceHold::Paused {
            self.hold = RaceHold::Preparing { ticks_remaining: PREPARATION_TICKS };
        }
    }

    /// Asks to recover Car `car` (`slow`: it moves at under 1 world unit/s;
    /// `destination_free`: no other Car stands where it would be placed).
    /// On success the cooldown starts and the lap in progress can no longer
    /// count; a refusal changes nothing.
    pub fn recover(&mut self, car: usize, slow: bool, destination_free: bool) -> (r: Result<
        (),
        RecoveryError,
    >)
        requires
            old(self).well_formed(),
            car < old(self).cars@.len(),
        ensures
            r == recovery_answer(old(self).recovery_cooldown@[car as int], slow, destination_free),
            final(self).well_formed(),
            final(self).phase == old(self).phase,
            final(self).checkpoints == old(self).checkpoints,
            final(self).cars@ == old(self).cars@,
            final(self).finish@ == old(self).finish@,
            final(self).finishers == old(self).finishers,
            final(self).window_remaining == old(self).window_remaining,
            final(self).hold == old(self).hold,
            r is Err ==> final(self).marks@ == old(self).marks@ && final(self).recovery_cooldown@
                == old(self).recovery_cooldown@,
            r is Ok ==> final(self).recovery_cooldown@ == old(self).recovery_cooldown@.update(
                car as int,
                RECOVERY_COOLDOWN_TICKS,
            ),
            r is Ok ==> final(self).marks@.len() == old(self).marks@.len(),
            r is Ok ==> forall|j: int|
                0 <= j < old(self).marks@.len() && j != car ==> #[trigger] final(self).marks@[j]
                    == old(self).marks@[j],
            r is Ok ==> final(self).marks@[car as int].current_invalidated,
            r is Ok ==> final(self).marks@[car as int].current_assisted == old(self).marks@[car as int].current_assisted,
            r is Ok ==> final(self).marks@[car as int].eligible_laps@ == old(self).marks@[car as int].eligible_laps@,
            r is Ok ==> final(self).marks@[car as int].best_manual_lap_ticks == old(self).marks@[car as int].best_manual_lap_ticks,
    {
        if self.recovery_cooldown[car] > 0 {
            return Err(RecoveryError::Cooldown);
        }
        if !slow {
            return Err(RecoveryError::TooFast);
        }
        if !destination_free {
            return Err(RecoveryError::Occupied);
        }
        let mut m = self.marks[car].duplicate();
        m.invalidate();
        self.marks.set(car, m);
        self.recovery_cooldown.set(car, RECOVERY_COOLDOWN_TICKS);
        Ok(())
    }

    /// Advances the lap progress of every Car still racing, and reports for
    /// each Car whether it takes the flag this tick.
    fn step_racing_cars(&mut self, reached: &[bool], assisted: &[bool]) -> (takes: Vec<bool>)
        requires
            old(self).well_formed(),
            forall|i: int|
                0 <= i < old(self).cars@.len() ==> (#[trigger] old(self).cars@[i]).current_lap_ticks
                    < u32::MAX,
        ensures
            final(self).phase == old(self).phase,
            final(self).checkpoints == old(self).checkpoints,
            final(self).finish@ == old(self).finish@,
            final(self).finishers == old(self).finishers,
            final(self).window_remaining == old(self).window_remaining,
            final(self).cars@.len() == old(self).cars@.len(),
            final(self).marks@.len() == old(self).cars@.len(),
            final(self).recovery_cooldown@ == old(self).recovery_cooldown@,
            final(self).hold == old(self).hold,
            forall|i: int|
                0 <= i < old(self).cars@.len() ==> if old(self).finish@[i] is Racing {
                    (#[trigger] old(self).marks@[i]).noted(
                        final(self).marks@[i],
                        reached_at(assisted@, i),
                        lap_done(old(self).cars@[i], final(self).cars@[i]),
                    )
                } else {
                    final(self).marks@[i] == old(self).marks@[i]
                },
            forall|i: int|
                0 <= i < old(self).cars@.len() ==> (#[trigger] final(self).marks@[i]).well_formed(),
            takes@.len() == old(self).cars@.len(),
            forall|i: int|
                0 <= i < old(self).cars@.len() ==> if old(self).finish@[i] is Racing {
                    (#[trigger] old(self).cars@[i]).stepped(
                        final(self).cars@[i],
                        reached_at(reached@, i),
                        old(self).checkpoints as int,
                    )
                } else {
                    final(self).cars@[i] == old(self).cars@[i]
                },
            forall|i: int|
                0 <= i < old(self).cars@.len() ==> (#[trigger] final(self).cars@[i]).well_formed(
                    old(self).checkpoints as int,
                ),
            forall|i: int|
                0 <= i < old(self).cars@.len() ==> #[trigger] takes@[i] == old(self).takes_flag(
                    final(self).cars@,
                    i,
                ),
    {
        let ghost before = *self;
        let open = self.finishers > 0;
        let mut takes: Vec<bool> = Vec::new();
        let mut i: usize = 0;
        while i < self.cars.len()
            invariant
                self.phase == before.phase,
                self.checkpoints == before.checkpoints,
                self.finish@ == before.finish@,
                self.finishers == before.finishers,
                self.window_remaining == before.window_remaining,
                open == (before.finishers > 0),
                1 <= self.checkpoints < usize::MAX,
                self.cars@.len() == before.cars@.len(),
                self.finish@.len() == before.cars@.len(),
                self.marks@.len() == before.cars@.len(),
                self.recovery_cooldown@ == before.recovery_cooldown@,
                self.hold == before.hold,
                i <= before.cars@.len(),
                takes@.len() == i,
                forall|j: int|
                    0 <= j < before.cars@.len() ==> (#[trigger] before.marks@[j]).well_formed(),
                forall|j: int|
                    0 <= j < i ==> if before.finish@[j] is Racing {
                        (#[trigger] before.marks@[j]).noted(
                            self.marks@[j],
                            reached_at(assisted@, j),
                            lap_done(before.cars@[j], self.cars@[j]),
                        )
                    } else {
                        self.marks@[j] == before.marks@[j]
                    },
                forall|j: int| 0 <= j < i ==> (#[trigger] self.marks@[j]).well_formed(),
                forall|j: int|
                    i <= j < before.cars@.len() ==> #[trigger] self.marks@[j] == before.marks@[j],
                forall|j: int|
                    0 <= j < before.cars@.len() ==> (#[trigger] before.cars@[j]).well_formed(
                        self.checkpoints as int,
                    ) && before.cars@[j].current_lap_ticks < u32::MAX,
                forall|j: int|
                    0 <= j < i ==> if before.finish@[j] is Racing {
                        (#[trigger] before.cars@[j]).stepped(
                            self.cars@[j],
                            reached_at(reached@, j),
                            self.checkpoints as int,
                        )
                    } else {
                        self.cars@[j] == before.cars@[j]
                    },
                forall|j: int|
                    0 <= j < i ==> (#[trigger] self.cars@[j]).well_formed(self.checkpoints as int),
                forall|j: int|
                    0 <= j < i ==> #[trigger] takes@[j] == before.takes_flag(self.cars@, j),
                forall|j: int|
                    i <= j < before.cars@.len() ==> #[trigger] self.cars@[j] == before.cars@[j],
            decreases before.cars@.len() - i,
        {
            if self.finish[i] == FinishStatus::Racing {
                let hit = i < reached.len() && reached[i];
                let laps_before = self.cars[i].completed_laps;
                let mut car = self.cars[i].duplicate();
                car.step(hit, self.checkpoints);
                let lapped = car.completed_laps > laps_before;
                let flag = lapped && (car.completed_laps >= TOTAL_LAPS || open);
                let lap = if lapped {
                    car.lap_ticks[laps_before as usize]
                } else {
                    None
                };
                let drove_assisted = i < assisted.len() && assisted[i];
                let mut m = self.marks[i].duplicate();
                m.note(drove_assisted, lap);
                self.cars.set(i, car);
                self.marks.set(i, m);
                takes.push(flag);
            } else {
                takes.push(false);
            }
            i = i + 1;
        }
        takes
    }

    /// Hands out this tick's flags in grid order: each Car marked in
    /// `takes` takes the next place.
    fn award_flags(&mut self, takes: &Vec<bool>)
        requires
            old(self).finish@.len() == old(self).cars@.len(),
            old(self).finishers == finished_count(old(self).finish@),
            takes@.len() == old(self).cars@.len(),
            forall|j: int|
                0 <= j < takes@.len() && #[trigger] takes@[j] ==> old(self).finish@[j] is Racing,
        ensures
            final(self).phase == old(self).phase,
            final(self).checkpoints == old(self).checkpoints,
            final(self).cars@ == old(self).cars@,
            final(self).marks@ == old(self).marks@,
            final(self).recovery_cooldown@ == old(self).recovery_cooldown@,
            final(self).hold == old(self).hold,
            final(self).window_remaining == old(self).window_remaining,
            final(self).finish@.len() == old(self).finish@.len(),
            final(self).finishers == finished_count(final(self).finish@),
            final(self).finishers == old(self).finishers + count_true(takes@, takes@.len() as int),
            forall|j: int|
                0 <= j < takes@.len() ==> (#[trigger] final(self).finish@[j]) == (if takes@[j] {
                    FinishStatus::Finished {
                        place: (old(self).finishers + count_true(takes@, j) + 1) as usize,
                    }
                } else {
                    old(self).finish@[j]
                }),
    {
        let ghost before = *self;
        let mut placed: usize = self.finishers;
        let mut i: usize = 0;
        while i < takes.len()
            invariant
                self.phase == before.phase,
                self.checkpoints == before.checkpoints,
                self.cars@ == before.cars@,
                self.marks@ == before.marks@,
                self.recovery_cooldown@ == before.recovery_cooldown@,
                self.hold == before.hold,
                self.window_remaining == before.window_remaining,
                self.finishers == before.finishers,
                self.finish@.len() == takes@.len(),
                i <= takes@.len(),
                placed == before.finishers + count_true(takes@, i as int),
                placed == finished_count(self.finish@),
                forall|j: int|
                    0 <= j < i ==> (#[trigger] self.finish@[j]) == (if takes@[j] {
                        FinishStatus::Finished {
                            place: (before.finishers + count_true(takes@, j) + 1) as usize,
                        }
                    } else {
                        before.finish@[j]
                    }),
                forall|j: int| i <= j < takes@.len() ==> #[trigger] self.finish@[j] == before.finish@[j],
                forall|j: int|
                    0 <= j < takes@.len() && #[trigger] takes@[j] ==> before.finish@[j] is Racing,
            decreases takes@.len() - i,
        {
            if takes[i] {
                proof {
                    lemma_count_below(self.finish@, i as int);
                }
                let ghost prev = self.finish@;
                placed = placed + 1;
                self.finish.set(i, FinishStatus::Finished { place: placed });
                proof {
                    lemma_count_update(prev, i as int, FinishStatus::Finished { place: placed });
                }
            }
            i = i + 1;
        }
        self.finishers = placed;
    }

    /// Marks every Car still racing as DNF.
    fn classify_dnf(&mut self)
        ensures
            final(self).phase == old(self).phase,
            final(self).checkpoints == old(self).checkpoints,
            final(self).cars@ == old(self).cars@,
            final(self).marks@ == old(self).marks@,
            final(self).recovery_cooldown@ == old(self).recovery_cooldown@,
            final(self).hold == old(self).hold,
            final(self).finishers == old(self).finishers,
            final(self).window_remaining == old(self).window_remaining,
            final(self).finish@.len() == old(self).finish@.len(),
            finished_count(final(self).finish@) == finished_count(old(self).finish@),
            forall|j: int|
                0 <= j < old(self).finish@.len() ==> (#[trigger] final(self).finish@[j]) == if old(self).finish@[j] is Racing {
                    FinishStatus::Dnf
                } else {
                    old(self).finish@[j]
                },
    {
        let ghost before = *self;
        let mut i: usize = 0;
        while i < self.finish.len()
            invariant
                self.phase == before.phase,
                self.checkpoints == before.checkpoints,
                self.cars@ == before.cars@,
                self.marks@ == before.marks@,
                self.recovery_cooldown@ == before.recovery_cooldown@,
                self.hold == before.hold,
                self.finishers == before.finishers,
                self.window_remaining == before.window_remaining,
                self.finish@.len() == before.finish@.len(),
                i <= before.finish@.len(),
                finished_count(self.finish@) == finished_count(before.finish@),
                forall|j: int|
                    0 <= j < i ==> (#[trigger] self.finish@[j]) == if before.finish@[j] is Racing {
                        FinishStatus::Dnf
                    } else {
                        before.finish@[j]
                    },
                forall|j: int|
                    i <= j < before.finish@.len() ==> #[trigger] self.finish@[j] == before.finish@[j],
            decreases before.finish@.len() - i,
        {
            if self.finish[i] == FinishStatus::Racing {
                proof {
                    lemma_count_update(self.finish@, i as int, FinishStatus::Dnf);
                }
                self.finish.set(i, FinishStatus::Dnf);
            }
            i = i + 1;
        }
    }

    /// The flags counted in `takes` are this tick's flags.
    proof fn lemma_takes_count(self, next_cars: Seq<LapProgress>, takes: Seq<bool>, k: int)
        requires
            0 <= k <= takes.len(),
            forall|j: int| 0 <= j < takes.len() ==> #[trigger] takes[j] == self.takes_flag(next_cars, j),
        ensures
            count_true(takes, k) == self.flags_before(next_cars, k),
        decreases k,
    {
        if k > 0 {
            self.lemma_takes_count(next_cars, takes, k - 1);
        }
    }

    /// Handing out this tick's flags keeps every finisher on its own place.
    proof fn lemma_flagged_places(self, next_cars: Seq<LapProgress>, mid: Seq<FinishStatus>)
        requires
            self.finish@.len() == self.cars@.len(),
            places_valid(self.finish@, self.finishers as int),
            mid.len() == self.cars@.len(),
            forall|j: int| 0 <= j < mid.len() ==> #[trigger] mid[j] == self.flagged(next_cars, j),
            self.finishers + self.flags_before(next_cars, mid.len() as int) <= usize::MAX,
        ensures
            places_valid(mid, self.finishers + self.flags_before(next_cars, mid.len() as int)),
    {
        let n = mid.len() as int;
        let total = self.finishers + self.flags_before(next_cars, n);
        assert forall|i: int| 0 <= i < n && (#[trigger] mid[i]) is Finished implies 1 <= mid[i]->place
            <= total by {
            if self.takes_flag(next_cars, i) {
                self.lemma_flags_monotone(next_cars, i + 1, n);
            } else {
                assert(self.finish@[i] == mid[i]);
                self.lemma_flags_monotone(next_cars, 0, n);
            }
        }
        assert forall|i: int, j: int|
            #![trigger mid[i], mid[j]]
            0 <= i < n && 0 <= j < n && i != j && mid[i] is Finished && mid[j] is Finished implies mid[i]->place
                != mid[j]->place by {
            let fi = self.takes_flag(next_cars, i);
            let fj = self.takes_flag(next_cars, j);
            self.lemma_flags_monotone(next_cars, i + 1, n);
            self.lemma_flags_monotone(next_cars, j + 1, n);
            if fi && fj {
                if i < j {
                    self.lemma_flags_monotone(next_cars, i + 1, j);
                } else {
                    self.lemma_flags_monotone(next_cars, j + 1, i);
                }
            } else if !fi && !fj {
                assert(self.finish@[i] == mid[i] && self.finish@[j] == mid[j]);
            } else if fi {
                assert(self.finish@[j] == mid[j]);
                assert(self.finish@[j]->place <= self.finishers);
            } else {
                assert(self.finish@[i] == mid[i]);
                assert(self.finish@[i]->place <= self.finishers);
            }
        }
    }

    /// End of a tick, after the Cars moved. While racing, each Car still
    /// racing advances its lap progress (`reached[i]`: Car `i` reached its
    /// next checkpoint heading along the loop; a missing entry means not
    /// reached); a Car that completes its last lap takes the flag, and once
    /// the first flag is out the window opens: any lap completed inside it
    /// takes the flag too. Flags go out in grid order. The race finishes
    /// when the window runs out or no Car is left racing; the Cars still
    /// racing then are DNF. In any other phase nothing changes.
    pub fn end_tick(&mut self, reached: &[bool], assisted: &[bool])
        requires
            old(self).well_formed(),
            forall|i: int|
                0 <= i < old(self).cars@.len() ==> (#[trigger] old(self).cars@[i]).current_lap_ticks
                    < u32::MAX,
        ensures
            old(self).ended(*final(self), reached@, assisted@),
            final(self).well_formed(),
    {
        if self.phase != RacePhase::Racing {
            return ;
        }
        let ghost before = *self;
        let had = self.finishers;
        let takes = self.step_racing_cars(reached, assisted);
        let ghost next_cars = self.cars@;
        let ghost n = before.cars@.len() as int;
        self.award_flags(&takes);
        let ghost mid = self.finish@;
        proof {
            assert forall|k: int| 0 <= k <= n implies count_true(takes@, k) == before.flags_before(
                next_cars,
                k,
            ) by {
                before.lemma_takes_count(next_cars, takes@, k);
            }
            assert forall|j: int| 0 <= j < n implies #[trigger] mid[j] == before.flagged(next_cars, j) by {
                assert(count_true(takes@, j) == before.flags_before(next_cars, j));
            }
            before.lemma_flagged_places(next_cars, mid);
        }
        let window: u32 = if had > 0 {
            if self.window_remaining > 0 {
                self.window_remaining - 1
            } else {
                0
            }
        } else if self.finishers > 0 {
            FINISH_WINDOW_TICKS
        } else {
            0
        };
        self.window_remaining = window;
        let racing_left = any_racing(&self.finish);
        proof {
            let flags = before.flags_before(next_cars, n);
            assert(self.finishers == before.finishers + flags);
            assert(window == before.window_after(flags));
            if !racing_left {
                assert forall|i: int| 0 <= i < n implies !(#[trigger] before.flagged(
                    next_cars,
                    i,
                ) is Racing) by {
                    assert(mid[i] == before.flagged(next_cars, i));
                }
            } else {
                let w = choose|j: int| 0 <= j < mid.len() && (#[trigger] mid[j]) is Racing;
                assert(before.flagged(next_cars, w) is Racing);
            }
        }
        if self.finishers > 0 && (window == 0 || !racing_left) {
            self.classify_dnf();
            self.phase = RacePhase::Finished;
        }
        proof {
            assert(places_valid(self.finish@, self.finishers as int)) by {
                assert forall|i: int|
                    0 <= i < n && (#[trigger] self.finish@[i]) is Finished implies mid[i] == self.finish@[i] by {
                }
            }
        }
    }
}

/// A finished race never changes again: no tick moves a Car, hands out a
/// place or reopens the race.
pub proof fn finished_race_never_changes(s: RaceState, next: RaceState, reached: Seq<bool>, assisted: Seq<bool>)
    requires
        s.phase == RacePhase::Finished,
        s.ended(next, reached, assisted),
    ensures
        next.phase == RacePhase::Finished,
        next.cars@ == s.cars@,
        next.finish@ == s.finish@,
        next.finishers == s.finishers,
        next.window_remaining == s.window_remaining,
{
}

/// Places go out in order of arrival: a Car that already has a place keeps
/// it, Cars flagged in one tick are placed after everyone before them and
/// among themselves in grid order, and once the first flag is out a Car
/// still racing takes the flag on its next completed lap, whatever its lap
/// count.
pub proof fn flags_go_out_in_order(s: RaceState, next: RaceState, reached: Seq<bool>, assisted: Seq<bool>, i: int, j: int)
    requires
        s.well_formed(),
        s.phase == RacePhase::Racing,
        s.ended(next, reached, assisted),
        0 <= i < j < s.cars@.len(),
    ensures
        s.finish@[i] is Finished ==> next.finish@[i] == s.finish@[i],
        s.finish@[i] is Racing && next.finish@[i] is Finished ==> s.finishers < next.finish@[i]->place
            <= next.finishers,
        s.finish@[i] is Racing && next.finish@[i] is Finished && s.finish@[j] is Racing
            && next.finish@[j] is Finished ==> next.finish@[i]->place < next.finish@[j]->place,
        s.finishers > 0 && s.finish@[i] is Racing && next.cars@[i].completed_laps
            > s.cars@[i].completed_laps ==> next.finish@[i] is Finished,
        next.cars@[i].completed_laps >= TOTAL_LAPS && s.cars@[i].completed_laps < TOTAL_LAPS
            && s.finish@[i] is Racing ==> next.finish@[i] is Finished,
{
    let n = s.cars@.len() as int;
    let nc = next.cars@;
    assert(next.finish@[i] == (if s.closes(nc) && s.flagged(nc, i) is Racing {
        FinishStatus::Dnf
    } else {
        s.flagged(nc, i)
    }));
    assert(next.finish@[j] == (if s.closes(nc) && s.flagged(nc, j) is Racing {
        FinishStatus::Dnf
    } else {
        s.flagged(nc, j)
    }));
    s.lemma_flags_monotone(nc, i + 1, n);
    s.lemma_flags_monotone(nc, j + 1, n);
    s.lemma_flags_monotone(nc, i + 1, j);
    assert(next.finishers == s.finishers + s.flags_before(nc, n));
}

/// When the race closes, every Car that has not taken the flag is DNF; a
/// tick that hands out the first flag opens the full window, and every
/// later tick runs it down by one; the race stays open exactly while
/// someone has yet to finish, the window has not run out and a Car is
/// still racing.
pub proof fn window_closes_the_race(s: RaceState, next: RaceState, reached: Seq<bool>, assisted: Seq<bool>)
    requires
        s.well_formed(),
        s.phase == RacePhase::Racing,
        s.ended(next, reached, assisted),
    ensures
        next.phase == RacePhase::Finished ==> forall|i: int|
            0 <= i < next.finish@.len() ==> (#[trigger] next.finish@[i]) is Finished
                || next.finish@[i] is Dnf,
        s.finishers == 0 && next.finishers > 0 ==> next.window_remaining == FINISH_WINDOW_TICKS,
        s.finishers > 0 ==> next.window_remaining == s.window_remaining - 1,
        next.phase == RacePhase::Racing <==> (next.finishers == 0 || (next.window_remaining > 0
            && exists|i: int| 0 <= i < next.finish@.len() && (#[trigger] next.finish@[i]) is Racing)),
        next.phase == RacePhase::Racing || next.phase == RacePhase::Finished,
{
    let n = s.cars@.len() as int;
    let nc = next.cars@;
    if s.closes(nc) {
        assert forall|i: int| 0 <= i < n implies !((#[trigger] next.finish@[i]) is Racing) by {
        }
    } else if next.finishers > 0 {
        let w = choose|i: int| 0 <= i < n && (#[trigger] s.flagged(nc, i)) is Racing;
        assert(s.flagged(nc, w) is Racing);
        assert(next.finish@[w] == s.flagged(nc, w));
    }
}

/// Over a tick no Car loses a lap or gains more than one, no Car goes past
/// the race length, and the phase never moves backwards.
pub proof fn laps_and_phase_never_go_back(
    s: RaceState,
    next: RaceState,
    reached: Seq<bool>,
    assisted: Seq<bool>,
)
    requires
        s.well_formed(),
        s.ended(next, reached, assisted),
    ensures
        next.phase.rank() >= s.phase.rank(),
        forall|i: int|
            0 <= i < s.cars@.len() ==> s.cars@[i].completed_laps <= (
            #[trigger] next.cars@[i]).completed_laps <= s.cars@[i].completed_laps + 1
                && next.cars@[i].completed_laps <= TOTAL_LAPS,
{
    assert forall|i: int|
        0 <= i < s.cars@.len() implies s.cars@[i].completed_laps <= (
        #[trigger] next.cars@[i]).completed_laps <= s.cars@[i].completed_laps + 1
            && next.cars@[i].completed_laps <= TOTAL_LAPS by {
        assert(s.cars@[i].well_formed(s.checkpoints as int));
        if s.phase == RacePhase::Racing && s.finish@[i] is Racing {
            laps_count_only_at_the_line(
                s.cars@[i],
                next.cars@[i],
                reached_at(reached, i),
                s.checkpoints as int,
            );
        }
    }
}

/// A race that ends while its window is still open ends because every Car
/// has taken the flag.
proof fn lemma_early_close(s: RaceState, next: RaceState, reached: Seq<bool>, assisted: Seq<bool>)
    requires
        s.well_formed(),
        s.phase == RacePhase::Racing,
        s.ended(next, reached, assisted),
        next.phase == RacePhase::Finished,
        next.window_remaining > 0,
    ensures
        forall|i: int| 0 <= i < next.finish@.len() ==> (#[trigger] next.finish@[i]) is Finished,
{
    let nc = next.cars@;
    assert forall|i: int| 0 <= i < next.finish@.len() implies (#[trigger] next.finish@[i]) is Finished by {
        assert(!(s.flagged(nc, i) is Racing));
        assert(!(s.finish@[i] is Dnf));
    }
}

proof fn lemma_window_runs(trace: Seq<RaceState>, ticks: Seq<(Seq<bool>, Seq<bool>)>, k: int)
    requires
        trace.len() == FINISH_WINDOW_TICKS + 2,
        ticks.len() == FINISH_WINDOW_TICKS + 1,
        forall|t: int| 0 <= t < trace.len() ==> (#[trigger] trace[t]).well_formed(),
        forall|t: int|
            0 <= t < ticks.len() ==> trace[t].ended(trace[t + 1], (#[trigger] ticks[t]).0, ticks[t].1),
        trace[0].phase == RacePhase::Racing,
        trace[0].finishers == 0,
        trace[1].finishers > 0,
        1 <= k <= FINISH_WINDOW_TICKS + 1,
    ensures
        (trace[k].phase == RacePhase::Racing && trace[k].finishers > 0
            && trace[k].window_remaining == FINISH_WINDOW_TICKS + 1 - k) || (trace[k].phase
            == RacePhase::Finished && (k <= FINISH_WINDOW_TICKS ==> forall|i: int|
            0 <= i < trace[k].finish@.len() ==> (#[trigger] trace[k].finish@[i]) is Finished)),
    decreases k,
{
    let s = trace[k - 1];
    let next = trace[k];
    assert(s.ended(next, ticks[k - 1].0, ticks[k - 1].1));
    assert(s.well_formed() && next.well_formed());
    if k > 1 {
        lemma_window_runs(trace, ticks, k - 1);
    }
    if s.phase == RacePhase::Racing {
        window_closes_the_race(s, next, ticks[k - 1].0, ticks[k - 1].1);
        if next.phase == RacePhase::Finished && next.window_remaining > 0 {
            lemma_early_close(s, next, ticks[k - 1].0, ticks[k - 1].1);
        }
    }
}

/// The finish window lasts its ticks: once the first Car takes the flag,
/// the race stays open for `FINISH_WINDOW_TICKS` more ticks unless every
/// Car has taken the flag before then, and when they have run the race is
/// over.
pub proof fn finish_window_lasts_its_ticks(trace: Seq<RaceState>, ticks: Seq<(Seq<bool>, Seq<bool>)>)
    requires
        trace.len() == FINISH_WINDOW_TICKS + 2,
        ticks.len() == FINISH_WINDOW_TICKS + 1,
        forall|t: int| 0 <= t < trace.len() ==> (#[trigger] trace[t]).well_formed(),
        forall|t: int|
            0 <= t < ticks.len() ==> trace[t].ended(trace[t + 1], (#[trigger] ticks[t]).0, ticks[t].1),
        trace[0].phase == RacePhase::Racing,
        trace[0].finishers == 0,
        trace[1].finishers > 0,
    ensures
        forall|t: int|
            1 <= t <= FINISH_WINDOW_TICKS && (#[trigger] trace[t]).phase == RacePhase::Finished
                ==> forall|i: int|
                0 <= i < trace[t].finish@.len() ==> (#[trigger] trace[t].finish@[i]) is Finished,
        trace[FINISH_WINDOW_TICKS + 1].phase == RacePhase::Finished,
{
    assert forall|t: int|
        1 <= t <= FINISH_WINDOW_TICKS && (#[trigger] trace[t]).phase == RacePhase::Finished implies forall|i: int|
        0 <= i < trace[t].finish@.len() ==> (#[trigger] trace[t].finish@[i]) is Finished by {
        lemma_window_runs(trace, ticks, t);
    }
    lemma_window_runs(trace, ticks, FINISH_WINDOW_TICKS + 1);
    assert(trace[FINISH_WINDOW_TICKS + 1].well_formed());
}

/// Whether some Car is still racing.
fn any_racing(finish: &Vec<FinishStatus>) -> (r: bool)
    ensures
        r == exists|j: int| 0 <= j < finish@.len() && (#[trigger] finish@[j]) is Racing,
{
    let mut k: usize = 0;
    while k < finish.len()
        invariant
            k <= finish@.len(),
            forall|j: int| 0 <= j < k ==> !((#[trigger] finish@[j]) is Racing),
        decreases finish@.len() - k,
    {
        if finish[k] == FinishStatus::Racing {
            return true;
        }
        k = k + 1;
    }
    false
}

/// Number of marked entries among the first `k`.
pub open spec fn count_true(s: Seq<bool>, k: int) -> nat
    decreases k,
{
    if k <= 0 {
        0
    } else {
        count_true(s, k - 1) + if s[k - 1] {
            1nat
        } else {
            0nat
        }
    }
}


/// The ticks of the lap a Car completed between two states, if any.
pub open spec fn lap_done(before: LapProgress, after: LapProgress) -> Option<u32> {
    if after.completed_laps > before.completed_laps {
        after.lap_ticks@[before.completed_laps as int]
    } else {
        None
    }
}

/// Whether entry `i` of a list of per-Car flags is set.
pub open spec fn reached_at(reached: Seq<bool>, i: int) -> bool {
    0 <= i < reached.len() && reached[i]
}

/// A lap is counted only when the start/finish line is reached in order
/// (after every other checkpoint of the lap), never more than one per tick,
/// never beyond the race length; progress never moves backwards.
pub proof fn laps_count_only_at_the_line(
    before: LapProgress,
    after: LapProgress,
    reached: bool,
    checkpoints: int,
)
    requires
        before.well_formed(checkpoints),
        before.stepped(after, reached, checkpoints),
    ensures
        before.completed_laps <= after.completed_laps <= before.completed_laps + 1,
        after.completed_laps <= TOTAL_LAPS,
        after.completed_laps == before.completed_laps + 1 ==> reached && before.next_checkpoint
            == 0,
        !reached ==> after.next_checkpoint == before.next_checkpoint,
{
}

proof fn lemma_best_of_is_min(laps: Seq<Option<u32>>, k: int)
    requires
        0 <= k <= laps.len(),
        forall|j: int| 0 <= j < k ==> (#[trigger] laps[j]) is Some,
    ensures
        best_of(laps, k) is None <==> k == 0,
        best_of(laps, k) matches Some(b) ==> (forall|j: int|
            0 <= j < k ==> b <= (#[trigger] laps[j]).unwrap()) && exists|j: int|
            0 <= j < k && (#[trigger] laps[j]) == Some(b),
    decreases k,
{
    if k > 0 {
        lemma_best_of_is_min(laps, k - 1);
        let b = best_of(laps, k).unwrap();
        if best_of(laps, k) == Some(laps[k - 1].unwrap()) {
            assert(laps[k - 1] == Some(b));
        }
    }
}

/// The best lap is the fastest completed lap: there is none before the
/// first lap, and afterwards it is one of the recorded laps and no
/// recorded lap is faster.
pub proof fn best_lap_is_the_fastest_lap(progress: LapProgress, checkpoints: int)
    requires
        progress.well_formed(checkpoints),
    ensures
        progress.best_lap_ticks is None <==> progress.completed_laps == 0,
        progress.best_lap_ticks matches Some(best) ==> (forall|k: int|
            0 <= k < progress.completed_laps ==> best <= (
            #[trigger] progress.lap_ticks@[k]).unwrap()) && exists|k: int|
            0 <= k < progress.completed_laps && (#[trigger] progress.lap_ticks@[k]) == Some(best),
{
    assert forall|j: int| 0 <= j < progress.completed_laps implies (
    #[trigger] progress.lap_ticks@[j]) is Some by {
        assert(progress.lap_ticks@[j] is Some <==> j < progress.completed_laps);
    }
    lemma_best_of_is_min(progress.lap_ticks@, progress.completed_laps as int);
}

} // verus!
