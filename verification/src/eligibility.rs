//! Which laps may set a record: a flying lap, driven manually throughout
//! and not recovered. Autopilot laps, recovered laps and the opening lap
//! from the grid never count.

use vstd::prelude::*;

verus! {

/// The fewest ticks among the recorded eligible laps of the first `k`.
pub open spec fn best_eligible(laps: Seq<Option<u32>>, k: int) -> Option<u32>
    decreases k,
{
    if k <= 0 {
        None
    } else {
        match (best_eligible(laps, k - 1), laps[k - 1]) {
            (None, t) => t,
            (Some(b), None) => Some(b),
            (Some(b), Some(t)) => Some(
                if b <= t {
                    b
                } else {
                    t
                },
            ),
        }
    }
}

/// Assistance and eligibility of one Car's laps.
pub struct LapMarks {
    /// Autopilot drove during the lap in progress.
    pub current_assisted: bool,
    /// The lap in progress was invalidated by a recovery.
    pub current_invalidated: bool,
    /// Per completed lap, in order: its ticks if it may set a record.
    pub eligible_laps: Vec<Option<u32>>,
    /// Fewest ticks of any eligible lap.
    pub best_manual_lap_ticks: Option<u32>,
}

impl LapMarks {
    /// The opening lap never counts, and the best is the best eligible lap.
    pub open spec fn well_formed(self) -> bool {
        &&& self.eligible_laps@.len() >= 1 ==> self.eligible_laps@[0] is None
        &&& self.best_manual_lap_ticks == best_eligible(
            self.eligible_laps@,
            self.eligible_laps@.len() as int,
        )
    }

    /// Whether the lap completed now may set a record: not the opening lap,
    /// no Autopilot during it, no recovery.
    pub open spec fn lap_counts(self, assisted: bool) -> bool {
        &&& self.eligible_laps@.len() >= 1
        &&& !self.current_assisted
        &&& !assisted
        &&& !self.current_invalidated
    }

    /// One tick of the Car: `assisted` when Autopilot drove it, `lap` the
    /// ticks of the lap it completed, if any. A completed lap is recorded
    /// as eligible or not, and the next lap starts clean.
    pub open spec fn noted(self, next: LapMarks, assisted: bool, lap: Option<u32>) -> bool {
        match lap {
            None => {
                &&& next.current_assisted == (self.current_assisted || assisted)
                &&& next.current_invalidated == self.current_invalidated
                &&& next.eligible_laps@ == self.eligible_laps@
                &&& next.best_manual_lap_ticks == self.best_manual_lap_ticks
            },
            Some(t) => {
                let counts = self.lap_counts(assisted);
                &&& !next.current_assisted
                &&& !next.current_invalidated
                &&& next.eligible_laps@ == self.eligible_laps@.push(
                    if counts {
                        Some(t)
                    } else {
                        None
                    },
                )
                &&& next.best_manual_lap_ticks == if counts {
                    Some(
                        match self.best_manual_lap_ticks {
                            Some(b) => if b <= t {
                                b
                            } else {
                                t
                            },
                            None => t,
                        },
                    )
                } else {
                    self.best_manual_lap_ticks
                }
            },
        }
    }

    /// A Car on the grid: nothing driven yet.
    pub fn new() -> (m: LapMarks)
        ensures
            !m.current_assisted,
            !m.current_invalidated,
            m.eligible_laps@ == Seq::<Option<u32>>::empty(),
            m.best_manual_lap_ticks is None,
            m.well_formed(),
    {
        LapMarks {
            current_assisted: false,
            current_invalidated: false,
            eligible_laps: Vec::new(),
            best_manual_lap_ticks: None,
        }
    }

    /// An independent copy.
    pub fn duplicate(&self) -> (c: LapMarks)
        ensures
            c.current_assisted == self.current_assisted,
            c.current_invalidated == self.current_invalidated,
            c.eligible_laps@ == self.eligible_laps@,
            c.best_manual_lap_ticks == self.best_manual_lap_ticks,
    {
        let mut laps: Vec<Option<u32>> = Vec::new();
        let mut i: usize = 0;
        while i < self.eligible_laps.len()
            invariant
                i <= self.eligible_laps@.len(),
                laps@ == self.eligible_laps@.take(i as int),
            decreases self.eligible_laps@.len() - i,
        {
            laps.push(self.eligible_laps[i]);
            i = i + 1;
            assert(laps@ =~= self.eligible_laps@.take(i as int));
        }
        assert(self.eligible_laps@.take(self.eligible_laps@.len() as int) =~= self.eligible_laps@);
        LapMarks {
            current_assisted: self.current_assisted,
            current_invalidated: self.current_invalidated,
            eligible_laps: laps,
            best_manual_lap_ticks: self.best_manual_lap_ticks,
        }
    }

    /// Notes one tick of the Car.
    pub fn note(&mut self, assisted: bool, lap: Option<u32>)
        requires
            old(self).well_formed(),
        ensures
            old(self).noted(*final(self), assisted, lap),
            final(self).well_formed(),
    {
        match lap {
            None => {
                self.current_assisted = self.current_assisted || assisted;
            },
            Some(t) => {
                let ghost before = self.eligible_laps@;
                let counts = self.eligible_laps.len() >= 1 && !self.current_assisted && !assisted
                    && !self.current_invalidated;
                if counts {
                    self.eligible_laps.push(Some(t));
                    self.best_manual_lap_ticks = Some(
                        match self.best_manual_lap_ticks {
                            Some(b) => if b <= t {
                                b
                            } else {
                                t
                            },
                            None => t,
                        },
                    );
                } else {
                    self.eligible_laps.push(None);
                }
                proof {
                    assert(self.eligible_laps@.drop_last() =~= before);
                    lemma_best_prefix(self.eligible_laps@, before, before.len() as int);
                }
                self.current_assisted = false;
                self.current_invalidated = false;
            },
        }
    }

    /// A recovery: the lap in progress can no longer count.
    pub fn invalidate(&mut self)
        ensures
            final(self).current_invalidated,
            final(self).current_assisted == old(self).current_assisted,
            final(self).eligible_laps@ == old(self).eligible_laps@,
            final(self).best_manual_lap_ticks == old(self).best_manual_lap_ticks,
    {
        self.current_invalidated = true;
    }
}

proof fn lemma_best_prefix(a: Seq<Option<u32>>, b: Seq<Option<u32>>, k: int)
    requires
        0 <= k <= a.len(),
        k <= b.len(),
        forall|j: int| 0 <= j < k ==> a[j] == b[j],
    ensures
        best_eligible(a, k) == best_eligible(b, k),
    decreases k,
{
    if k > 0 {
        lemma_best_prefix(a, b, k - 1);
    }
}

proof fn lemma_best_is_min(laps: Seq<Option<u32>>, k: int)
    requires
        0 <= k <= laps.len(),
    ensures
        best_eligible(laps, k) is None <==> forall|j: int| 0 <= j < k ==> (#[trigger] laps[j]) is None,
        best_eligible(laps, k) matches Some(b) ==> (forall|j: int|
            0 <= j < k && (#[trigger] laps[j]) is Some ==> b <= laps[j].unwrap()) && exists|j: int|
            0 <= j < k && (#[trigger] laps[j]) == Some(b),
    decreases k,
{
    if k > 0 {
        lemma_best_is_min(laps, k - 1);
        if best_eligible(laps, k) is Some && best_eligible(laps, k) == laps[k - 1] {
            assert(laps[k - 1] == best_eligible(laps, k));
        }
    }
}

/// The best manual lap is the fastest eligible lap: there is none until a
/// lap counts, the opening lap never counts, and otherwise it is one of the
/// eligible laps and none is faster.
pub proof fn best_manual_lap_is_the_fastest_eligible_lap(marks: LapMarks)
    requires
        marks.well_formed(),
    ensures
        marks.eligible_laps@.len() >= 1 ==> marks.eligible_laps@[0] is None,
        marks.best_manual_lap_ticks is None <==> forall|j: int|
            0 <= j < marks.eligible_laps@.len() ==> (#[trigger] marks.eligible_laps@[j]) is None,
        marks.best_manual_lap_ticks matches Some(b) ==> (forall|j: int|
            0 <= j < marks.eligible_laps@.len() && (#[trigger] marks.eligible_laps@[j]) is Some ==> b
                <= marks.eligible_laps@[j].unwrap()) && exists|j: int|
            0 <= j < marks.eligible_laps@.len() && (#[trigger] marks.eligible_laps@[j]) == Some(b),
{
    lemma_best_is_min(marks.eligible_laps@, marks.eligible_laps@.len() as int);
}

/// An assisted or recovered lap, and the opening lap, never count and never
/// change the best manual lap.
pub proof fn ineligible_laps_never_count(
    marks: LapMarks,
    next: LapMarks,
    assisted: bool,
    t: u32,
)
    requires
        marks.noted(next, assisted, Some(t)),
        assisted || marks.current_assisted || marks.current_invalidated
            || marks.eligible_laps@.len() == 0,
    ensures
        next.eligible_laps@.last() is None,
        next.best_manual_lap_ticks == marks.best_manual_lap_ticks,
{
}


/// A completed lap is always recorded, in order after the earlier laps,
/// and the lap after it starts clean: neither Autopilot nor a recovery
/// carries over. It counts, with its ticks, exactly when it is not the
/// opening lap and neither Autopilot nor a recovery touched it; then the
/// best manual lap becomes the faster of the old best and this lap.
pub proof fn a_completed_lap_is_recorded_and_the_next_starts_clean(
    marks: LapMarks,
    next: LapMarks,
    assisted: bool,
    t: u32,
)
    requires
        marks.noted(next, assisted, Some(t)),
    ensures
        !next.current_assisted,
        !next.current_invalidated,
        next.eligible_laps@.len() == marks.eligible_laps@.len() + 1,
        forall|k: int|
            0 <= k < marks.eligible_laps@.len() ==> #[trigger] next.eligible_laps@[k]
                == marks.eligible_laps@[k],
        next.eligible_laps@.last() == (if marks.eligible_laps@.len() >= 1 && !assisted
            && !marks.current_assisted && !marks.current_invalidated {
            Some(t)
        } else {
            None
        }),
        next.eligible_laps@.last() == Some(t) ==> (next.best_manual_lap_ticks matches Some(b) && b
            <= t && (b == t || marks.best_manual_lap_ticks == Some(b)) && (
        marks.best_manual_lap_ticks matches Some(old_best) ==> b <= old_best)),
        next.eligible_laps@.last() is None ==> next.best_manual_lap_ticks
            == marks.best_manual_lap_ticks,
{
}

/// Within a lap, Autopilot and recoveries only accumulate: once the lap is
/// assisted or recovered it stays so until it completes, and nothing is
/// recorded.
pub proof fn marks_stick_to_the_lap_in_progress(marks: LapMarks, next: LapMarks, assisted: bool)
    requires
        marks.noted(next, assisted, None),
    ensures
        next.current_assisted == (marks.current_assisted || assisted),
        next.current_invalidated == marks.current_invalidated,
        next.eligible_laps@ == marks.eligible_laps@,
        next.best_manual_lap_ticks == marks.best_manual_lap_ticks,
{
}

/// A recovery spoils only the lap in progress: that lap is recorded as not
/// counting, and a clean manual lap completed after it counts with its
/// ticks.
pub proof fn recovery_spoils_only_the_lap_in_progress(
    recovered: LapMarks,
    after_lap: LapMarks,
    after_next: LapMarks,
    t1: u32,
    t2: u32,
)
    requires
        recovered.current_invalidated,
        recovered.noted(after_lap, false, Some(t1)),
        after_lap.noted(after_next, false, Some(t2)),
    ensures
        after_lap.eligible_laps@.last() is None,
        after_next.eligible_laps@.last() == Some(t2),
        (after_next.best_manual_lap_ticks matches Some(b) && b <= t2),
{
}

} // verus!
