//! Corner Practice: one authored section timed on its own. The section is a
//! run of directional gates that must be crossed forward, in order, on the
//! Track, by a manually driven Car.

use vstd::prelude::*;

verus! {

/// Why an attempt no longer counts.
#[derive(Debug, Clone, Copy, PartialEq, Eq, Structural)]
pub enum InvalidReason {
    AutopilotUsed,
    CarRecovered,
    LeftTheTrack,
    ReverseGateCrossing,
    SkippedSectionGate,
}

impl InvalidReason {
    pub open spec fn spec_message(self) -> Seq<char> {
        match self {
            InvalidReason::AutopilotUsed => "Autopilot used"@,
            InvalidReason::CarRecovered => "Car recovered"@,
            InvalidReason::LeftTheTrack => "Left the Track"@,
            InvalidReason::ReverseGateCrossing => "Reverse gate crossing"@,
            InvalidReason::SkippedSectionGate => "Skipped a section gate"@,
        }
    }

    /// The reason as shown to the player.
    pub fn message(self) -> (m: &'static str)
        ensures
            m@ == self.spec_message(),
    {
        match self {
            InvalidReason::AutopilotUsed => "Autopilot used",
            InvalidReason::CarRecovered => "Car recovered",
            InvalidReason::LeftTheTrack => "Left the Track",
            InvalidReason::ReverseGateCrossing => "Reverse gate crossing",
            InvalidReason::SkippedSectionGate => "Skipped a section gate",
        }
    }
}

/// State of an attempt.
#[derive(Debug, Clone, Copy, PartialEq, Eq, Structural)]
pub enum PracticeStatus {
    /// Not yet through the first gate.
    Approach,
    /// Between the first and the last gate; the section clock runs.
    Running,
    /// Through the last gate: section ticks and exit speed (binary32 bits).
    Finished { ticks: u32, exit_speed: u32 },
    Invalid(InvalidReason),
}

impl PracticeStatus {
    /// Finished and invalid attempts are over.
    pub open spec fn is_over(self) -> bool {
        self is Finished || self is Invalid
    }
}

/// What one tick showed of the practiced Car, measured on its snapshots.
pub struct PracticeObservation {
    /// The Car drove under Autopilot this tick.
    pub autopilot: bool,
    /// The Car's current lap was invalidated (it was recovered).
    pub lap_invalidated: bool,
    /// The Car is off the Track (on grass).
    pub off_track: bool,
    /// Gate `i` was crossed backwards between the two snapshots.
    pub reverse_crossings: Vec<bool>,
    /// Gate `i` was crossed forwards between the two snapshots.
    pub forward_crossings: Vec<bool>,
    /// Speed of the Car in the newer snapshot (binary32 bits).
    pub speed: u32,
}

/// Whether entry `i` of a list of flags is set.
pub open spec fn flag(v: Seq<bool>, i: int) -> bool {
    0 <= i < v.len() && v[i]
}

/// Gates `i..` are examined in order: a backward crossing invalidates, a
/// forward crossing of any gate but the next one invalidates, a forward
/// crossing of the next gate advances; through the last gate the attempt
/// finishes with `ticks` on the clock.
pub open spec fn scan_gates(
    gates: int,
    next: int,
    status: PracticeStatus,
    obs: PracticeObservation,
    ticks: u32,
    i: int,
) -> (int, PracticeStatus)
    decreases gates - i,
{
    if i >= gates {
        (next, status)
    } else if flag(obs.reverse_crossings@, i) {
        (next, PracticeStatus::Invalid(InvalidReason::ReverseGateCrossing))
    } else if flag(obs.forward_crossings@, i) {
        if i != next {
            (next, PracticeStatus::Invalid(InvalidReason::SkippedSectionGate))
        } else if next + 1 == gates {
            (next + 1, PracticeStatus::Finished { ticks, exit_speed: obs.speed })
        } else {
            scan_gates(gates, next + 1, PracticeStatus::Running, obs, ticks, i + 1)
        }
    } else {
        scan_gates(gates, next, status, obs, ticks, i + 1)
    }
}

proof fn lemma_scan_bounds(
    gates: int,
    next: int,
    status: PracticeStatus,
    obs: PracticeObservation,
    ticks: u32,
    i: int,
)
    requires
        0 <= next < gates,
        !status.is_over(),
    ensures
        next <= scan_gates(gates, next, status, obs, ticks, i).0 <= gates,
        scan_gates(gates, next, status, obs, ticks, i).1 is Finished ==> scan_gates(
            gates,
            next,
            status,
            obs,
            ticks,
            i,
        ).0 == gates,
        !scan_gates(gates, next, status, obs, ticks, i).1.is_over() ==> scan_gates(
            gates,
            next,
            status,
            obs,
            ticks,
            i,
        ).0 < gates,
        status.is_over() == false ==> scan_gates(gates, next, status, obs, ticks, i).1 is Approach
            ==> status is Approach,
    decreases gates - i,
{
    if i < gates && !flag(obs.reverse_crossings@, i) {
        if flag(obs.forward_crossings@, i) {
            if i == next && next + 1 != gates {
                lemma_scan_bounds(gates, next + 1, PracticeStatus::Running, obs, ticks, i + 1);
            }
        } else {
            lemma_scan_bounds(gates, next, status, obs, ticks, i + 1);
        }
    }
}

/// One timed attempt at a section of `gate_count` gates.
pub struct PracticeAttempt {
    gate_count: usize,
    next_gate: usize,
    ticks: u32,
    status: PracticeStatus,
}

impl PracticeAttempt {
    pub closed spec fn spec_gate_count(self) -> usize {
        self.gate_count
    }

    /// Number of gates of the section.
    pub fn gate_count(&self) -> (n: usize)
        ensures
            n == self.spec_gate_count(),
    {
        self.gate_count
    }

    pub closed spec fn spec_next_gate(self) -> usize {
        self.next_gate
    }

    pub closed spec fn spec_ticks(self) -> u32 {
        self.ticks
    }

    pub closed spec fn spec_status(self) -> PracticeStatus {
        self.status
    }

    /// Gates crossed so far never exceed the section, and a finished attempt
    /// has crossed them all.
    pub closed spec fn well_formed(self) -> bool {
        &&& self.next_gate <= self.gate_count
        &&& self.status is Finished ==> self.next_gate == self.gate_count
        &&& !self.status.is_over() ==> self.next_gate < self.gate_count || self.gate_count == 0
        &&& self.status is Approach ==> self.next_gate == 0
    }

    /// A fresh attempt in front of the first gate.
    pub fn new(gate_count: usize) -> (a: PracticeAttempt)
        ensures
            a.spec_gate_count() == gate_count,
            a.spec_next_gate() == 0,
            a.spec_ticks() == 0,
            a.spec_status() == PracticeStatus::Approach,
            a.well_formed(),
    {
        PracticeAttempt { gate_count, next_gate: 0, ticks: 0, status: PracticeStatus::Approach }
    }

    pub fn status(&self) -> (s: PracticeStatus)
        ensures
            s == self.spec_status(),
    {
        self.status
    }

    /// Ticks the section clock has run.
    pub fn elapsed_ticks(&self) -> (t: u32)
        ensures
            t == self.spec_ticks(),
    {
        self.ticks
    }

    /// Index of the next gate to cross.
    pub fn next_gate(&self) -> (g: usize)
        ensures
            g == self.spec_next_gate(),
    {
        self.next_gate
    }

    /// The attempt after observing one tick: next gate, section ticks and
    /// status. An attempt that is over stays as it is. Otherwise Autopilot,
    /// a recovery or leaving the Track invalidate it; else the clock runs if
    /// the Car is inside the section and the gates are examined in order.
    pub open spec fn spec_observe(self, obs: PracticeObservation) -> (usize, u32, PracticeStatus) {
        let status = self.spec_status();
        if status.is_over() {
            (self.spec_next_gate(), self.spec_ticks(), status)
        } else if obs.autopilot {
            (self.spec_next_gate(), self.spec_ticks(), PracticeStatus::Invalid(InvalidReason::AutopilotUsed))
        } else if obs.lap_invalidated {
            (self.spec_next_gate(), self.spec_ticks(), PracticeStatus::Invalid(InvalidReason::CarRecovered))
        } else if obs.off_track {
            (self.spec_next_gate(), self.spec_ticks(), PracticeStatus::Invalid(InvalidReason::LeftTheTrack))
        } else {
            let ticks = if status is Running {
                (self.spec_ticks() + 1) as u32
            } else {
                self.spec_ticks()
            };
            let scanned = scan_gates(
                self.spec_gate_count() as int,
                self.spec_next_gate() as int,
                status,
                obs,
                ticks,
                0,
            );
            (scanned.0 as usize, ticks, scanned.1)
        }
    }

    /// Observes one tick of the practiced Car.
    pub fn observe(&mut self, obs: &PracticeObservation)
        requires
            old(self).well_formed(),
            old(self).spec_status() is Running ==> old(self).spec_ticks() < u32::MAX,
        ensures
            final(self).spec_gate_count() == old(self).spec_gate_count(),
            (final(self).spec_next_gate(), final(self).spec_ticks(), final(self).spec_status())
                == old(self).spec_observe(*obs),
            final(self).well_formed(),
    {
        if self.status.is_over_exec() {
            return;
        }
        if obs.autopilot {
            self.status = PracticeStatus::Invalid(InvalidReason::AutopilotUsed);
            return;
        }
        if obs.lap_invalidated {
            self.status = PracticeStatus::Invalid(InvalidReason::CarRecovered);
            return;
        }
        if obs.off_track {
            self.status = PracticeStatus::Invalid(InvalidReason::LeftTheTrack);
            return;
        }
        if self.status == PracticeStatus::Running {
            self.ticks = self.ticks + 1;
        }
        if self.gate_count == 0 {
            return;
        }
        let ghost start_status = self.status;
        let ghost start_next = self.next_gate;
        let mut i: usize = 0;
        while i < self.gate_count
            invariant
                i <= self.gate_count,
                self.gate_count == old(self).spec_gate_count(),
                !old(self).spec_status().is_over(),
                !obs.autopilot && !obs.lap_invalidated && !obs.off_track,
                start_status == old(self).spec_status(),
                start_next == old(self).spec_next_gate(),
                self.next_gate < self.gate_count,
                !self.status.is_over(),
                self.status is Approach ==> self.next_gate == 0,
                self.ticks == (if old(self).spec_status() is Running {
                    (old(self).spec_ticks() + 1) as u32
                } else {
                    old(self).spec_ticks()
                }),
                scan_gates(
                    self.gate_count as int,
                    start_next as int,
                    start_status,
                    *obs,
                    self.ticks,
                    0,
                ) == scan_gates(
                    self.gate_count as int,
                    self.next_gate as int,
                    self.status,
                    *obs,
                    self.ticks,
                    i as int,
                ),
            decreases self.gate_count - i,
        {
            let backwards = i < obs.reverse_crossings.len() && obs.reverse_crossings[i];
            if backwards {
                proof {
                    assert(flag(obs.reverse_crossings@, i as int));
                    assert(scan_gates(self.gate_count as int, self.next_gate as int, self.status, *obs, self.ticks, i as int)
                        == (self.next_gate as int, PracticeStatus::Invalid(InvalidReason::ReverseGateCrossing)));
                }
                self.status = PracticeStatus::Invalid(InvalidReason::ReverseGateCrossing);
                return;
            }
            let forwards = i < obs.forward_crossings.len() && obs.forward_crossings[i];
            if forwards {
                if i != self.next_gate {
                    proof {
                        assert(flag(obs.forward_crossings@, i as int));
                    }
                    self.status = PracticeStatus::Invalid(InvalidReason::SkippedSectionGate);
                    return;
                }
                proof {
                    assert(flag(obs.forward_crossings@, i as int));
                }
                self.next_gate = self.next_gate + 1;
                if self.next_gate == self.gate_count {
                    self.status = PracticeStatus::Finished { ticks: self.ticks, exit_speed: obs.speed };
                    return;
                }
                self.status = PracticeStatus::Running;
            }
            i = i + 1;
        }
    }
}

impl PracticeStatus {
    pub fn is_over_exec(&self) -> (r: bool)
        ensures
            r == self.is_over(),
    {
        match self {
            PracticeStatus::Finished { .. } => true,
            PracticeStatus::Invalid(_) => true,
            _ => false,
        }
    }
}

/// A finished or invalid attempt never changes again.
pub proof fn attempts_end_for_good(a: PracticeAttempt, obs: PracticeObservation)
    requires
        a.spec_status().is_over(),
    ensures
        a.spec_observe(obs) == (a.spec_next_gate(), a.spec_ticks(), a.spec_status()),
{
}

/// The section clock runs only between the first and the last gate: an
/// attempt still approaching the first gate has no time on it.
pub proof fn clock_runs_inside_the_section(a: PracticeAttempt, obs: PracticeObservation)
    requires
        a.spec_status() is Approach,
    ensures
        a.spec_observe(obs).1 == a.spec_ticks(),
{
}

/// Gates are passed in order and never given back: an observation never
/// moves the next gate backwards or past the end of the section, and a
/// finished attempt has passed every gate.
pub proof fn gates_never_go_back(a: PracticeAttempt, obs: PracticeObservation)
    requires
        a.well_formed(),
    ensures
        a.spec_next_gate() <= a.spec_observe(obs).0 <= a.spec_gate_count(),
        a.spec_observe(obs).2 is Finished ==> a.spec_observe(obs).0 == a.spec_gate_count(),
{
    if !a.status.is_over() && !obs.autopilot && !obs.lap_invalidated && !obs.off_track
        && a.gate_count > 0 {
        let ticks = if a.status is Running {
            (a.ticks + 1) as u32
        } else {
            a.ticks
        };
        lemma_scan_bounds(a.gate_count as int, a.next_gate as int, a.status, obs, ticks, 0);
    }
}


/// Autopilot, a recovery or leaving the Track ends any attempt that is not
/// over, wherever the Car is (approaching or inside the section), with
/// that reason and in that priority, and leaves its gates and clock as
/// they were.
pub proof fn assistance_recovery_and_grass_end_an_attempt(a: PracticeAttempt, obs: PracticeObservation)
    requires
        !a.spec_status().is_over(),
    ensures
        obs.autopilot ==> a.spec_observe(obs) == (
            a.spec_next_gate(),
            a.spec_ticks(),
            PracticeStatus::Invalid(InvalidReason::AutopilotUsed),
        ),
        !obs.autopilot && obs.lap_invalidated ==> a.spec_observe(obs) == (
            a.spec_next_gate(),
            a.spec_ticks(),
            PracticeStatus::Invalid(InvalidReason::CarRecovered),
        ),
        !obs.autopilot && !obs.lap_invalidated && obs.off_track ==> a.spec_observe(obs) == (
            a.spec_next_gate(),
            a.spec_ticks(),
            PracticeStatus::Invalid(InvalidReason::LeftTheTrack),
        ),
{
}

/// Inside the section the clock runs one tick per clean tick: a running
/// attempt that crosses no gate and is neither assisted, recovered nor on
/// the grass stays running with one more tick and the same next gate; an
/// attempt still approaching keeps no time.
pub proof fn clean_ticks_run_the_clock(a: PracticeAttempt, obs: PracticeObservation)
    requires
        !obs.autopilot,
        !obs.lap_invalidated,
        !obs.off_track,
        forall|j: int| 0 <= j < a.spec_gate_count() ==> !flag(obs.reverse_crossings@, j) && !flag(
            obs.forward_crossings@,
            j,
        ),
        a.spec_status() is Running ==> a.spec_ticks() < u32::MAX,
    ensures
        a.spec_status() is Running ==> a.spec_observe(obs) == (
            a.spec_next_gate(),
            (a.spec_ticks() + 1) as u32,
            PracticeStatus::Running,
        ),
        a.spec_status() is Approach ==> a.spec_observe(obs) == (
            a.spec_next_gate(),
            a.spec_ticks(),
            PracticeStatus::Approach,
        ),
{
    let ticks = if a.spec_status() is Running {
        (a.spec_ticks() + 1) as u32
    } else {
        a.spec_ticks()
    };
    lemma_scan_quiet_from(
        a.spec_gate_count() as int,
        a.spec_next_gate() as int,
        a.spec_status(),
        obs,
        ticks,
        0,
    );
}


proof fn lemma_scan_skip(
    gates: int,
    next: int,
    status: PracticeStatus,
    obs: PracticeObservation,
    ticks: u32,
    i: int,
    j: int,
)
    requires
        i <= j,
        forall|k: int| i <= k < j ==> !flag(obs.reverse_crossings@, k) && !flag(
            obs.forward_crossings@,
            k,
        ),
    ensures
        scan_gates(gates, next, status, obs, ticks, i) == scan_gates(gates, next, status, obs, ticks, j),
    decreases j - i,
{
    if i < j {
        lemma_scan_skip(gates, next, status, obs, ticks, i + 1, j);
    }
}

/// One gate crossed in a clean tick: crossing it backwards ends the
/// attempt; crossing forward any gate but the next one ends it as a skip;
/// crossing the next gate forward passes it, and passing the last gate
/// finishes the attempt with the section clock as it stands and the exit
/// speed of this tick.
pub proof fn gates_are_taken_in_order(a: PracticeAttempt, obs: PracticeObservation, j: int)
    requires
        a.well_formed(),
        !a.spec_status().is_over(),
        !obs.autopilot,
        !obs.lap_invalidated,
        !obs.off_track,
        0 <= j < a.spec_gate_count(),
        forall|k: int|
            0 <= k < a.spec_gate_count() && k != j ==> !flag(obs.reverse_crossings@, k) && !flag(
                obs.forward_crossings@,
                k,
            ),
        a.spec_status() is Running ==> a.spec_ticks() < u32::MAX,
    ensures
        flag(obs.reverse_crossings@, j) ==> a.spec_observe(obs).2 == PracticeStatus::Invalid(
            InvalidReason::ReverseGateCrossing,
        ),
        !flag(obs.reverse_crossings@, j) && flag(obs.forward_crossings@, j) && j
            != a.spec_next_gate() ==> a.spec_observe(obs).2 == PracticeStatus::Invalid(
            InvalidReason::SkippedSectionGate,
        ),
        !flag(obs.reverse_crossings@, j) && flag(obs.forward_crossings@, j) && j
            == a.spec_next_gate() && j + 1 < a.spec_gate_count() ==> a.spec_observe(obs) == (
            (j + 1) as usize,
            a.spec_observe(obs).1,
            PracticeStatus::Running,
        ),
        !flag(obs.reverse_crossings@, j) && flag(obs.forward_crossings@, j) && j
            == a.spec_next_gate() && j + 1 == a.spec_gate_count() ==> a.spec_observe(obs) == (
            a.spec_gate_count(),
            a.spec_observe(obs).1,
            PracticeStatus::Finished { ticks: a.spec_observe(obs).1, exit_speed: obs.speed },
        ),
        a.spec_observe(obs).1 == if a.spec_status() is Running {
            (a.spec_ticks() + 1) as u32
        } else {
            a.spec_ticks()
        },
{
    let gates = a.spec_gate_count() as int;
    let next = a.spec_next_gate() as int;
    let status = a.spec_status();
    let ticks = if status is Running {
        (a.spec_ticks() + 1) as u32
    } else {
        a.spec_ticks()
    };
    lemma_scan_skip(gates, next, status, obs, ticks, 0, j);
    if !flag(obs.reverse_crossings@, j) && flag(obs.forward_crossings@, j) && j == next && next + 1
        != gates {
        lemma_scan_quiet_from(gates, next + 1, PracticeStatus::Running, obs, ticks, j + 1);
    }
    if !flag(obs.reverse_crossings@, j) && !flag(obs.forward_crossings@, j) {
        lemma_scan_quiet_from(gates, next, status, obs, ticks, j + 1);
    }
}

proof fn lemma_scan_quiet_from(
    gates: int,
    next: int,
    status: PracticeStatus,
    obs: PracticeObservation,
    ticks: u32,
    i: int,
)
    requires
        forall|k: int| i <= k < gates ==> !flag(obs.reverse_crossings@, k) && !flag(
            obs.forward_crossings@,
            k,
        ),
    ensures
        scan_gates(gates, next, status, obs, ticks, i) == (next, status),
    decreases gates - i,
{
    if i < gates {
        lemma_scan_quiet_from(gates, next, status, obs, ticks, i + 1);
    }
}

} // verus!
