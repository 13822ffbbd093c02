//! Driving effects: the fixed pool of tire marks and airborne particles
//! (kept in the order they were laid; once a pool is full each new item
//! drops the oldest), and the lifetimes and emission cadence of particles.

use std::collections::VecDeque;
use vstd::prelude::*;

verus! {

/// One fixed pool per app: at most this many tire marks, kept until retry.
pub const SKID_BUDGET: usize = 2048;

/// The last `capacity` items of `s` (all of them when there are fewer).
pub open spec fn newest<T>(s: Seq<T>, capacity: nat) -> Seq<T> {
    if s.len() <= capacity {
        s
    } else {
        s.subrange(s.len() - capacity, s.len() as int)
    }
}

/// Marks in the order they were laid, never more than `capacity`.
pub struct MarkPool<T> {
    capacity: usize,
    marks: VecDeque<T>,
}

impl<T> View for MarkPool<T> {
    type V = Seq<T>;

    closed spec fn view(&self) -> Seq<T> {
        self.marks@
    }
}

impl<T> MarkPool<T> {
    pub closed spec fn spec_capacity(&self) -> nat {
        self.capacity as nat
    }

    pub closed spec fn well_formed(&self) -> bool {
        self.marks@.len() <= self.capacity
    }

    /// An empty pool holding at most `capacity` marks.
    pub fn new(capacity: usize) -> (pool: MarkPool<T>)
        ensures
            pool.well_formed(),
            pool@ == Seq::<T>::empty(),
            pool.spec_capacity() == capacity,
    {
        MarkPool { capacity, marks: VecDeque::new() }
    }

    /// The pool's capacity.
    pub fn capacity(&self) -> (c: usize)
        ensures
            c == self.spec_capacity(),
    {
        self.capacity
    }

    /// The number of marks held.
    pub fn len(&self) -> (n: usize)
        ensures
            n == self@.len(),
    {
        self.marks.len()
    }

    /// The `i`-th oldest mark.
    pub fn get(&self, i: usize) -> (m: &T)
        requires
            i < self@.len(),
        ensures
            *m == self@[i as int],
    {
        &self.marks[i]
    }

    /// Lays a mark; a full pool first forgets its oldest.
    pub fn push(&mut self, mark: T)
        requires
            old(self).well_formed(),
        ensures
            final(self).well_formed(),
            final(self).spec_capacity() == old(self).spec_capacity(),
            final(self)@ == newest(old(self)@.push(mark), old(self).spec_capacity()),
    {
        self.marks.push_back(mark);
        if self.marks.len() > self.capacity {
            self.marks.pop_front();
        }
    }

    /// Forgets every mark.
    pub fn clear(&mut self)
        ensures
            final(self).well_formed(),
            final(self).spec_capacity() == old(self).spec_capacity(),
            final(self)@ == Seq::<T>::empty(),
    {
        self.marks.clear();
    }
}

/// Laying marks one at a time keeps exactly the newest `capacity` of all
/// the marks laid: whatever was laid before, the pool never exceeds its
/// capacity and drops oldest first.
pub proof fn pool_keeps_the_newest<T>(laid: Seq<T>, mark: T, capacity: nat)
    ensures
        newest(newest(laid, capacity).push(mark), capacity) == newest(laid.push(mark), capacity),
        newest(laid, capacity).len() <= capacity,
{
    let kept = newest(laid, capacity);
    if laid.len() > capacity {
        assert(newest(kept.push(mark), capacity) =~= newest(laid.push(mark), capacity));
    }
}

/// Laying `marks` one by one onto a pool holding `pool`.
pub open spec fn laid<T>(pool: Seq<T>, marks: Seq<T>, capacity: nat) -> Seq<T>
    decreases marks.len(),
{
    if marks.len() == 0 {
        pool
    } else {
        newest(laid(pool, marks.drop_last(), capacity).push(marks.last()), capacity)
    }
}

/// Laying marks one at a time onto a pool that holds the newest of what
/// came before keeps exactly the newest `capacity` of everything laid, the
/// oldest dropped first, and never more than `capacity`.
pub proof fn pool_keeps_the_newest_of_many<T>(before: Seq<T>, marks: Seq<T>, capacity: nat)
    ensures
        laid(newest(before, capacity), marks, capacity) == newest(before + marks, capacity),
        laid(newest(before, capacity), marks, capacity).len() <= capacity,
    decreases marks.len(),
{
    if marks.len() == 0 {
        assert(before + marks =~= before);
    } else {
        let rest = marks.drop_last();
        pool_keeps_the_newest_of_many(before, rest, capacity);
        pool_keeps_the_newest(before + rest, marks.last(), capacity);
        assert((before + rest).push(marks.last()) =~= before + marks);
    }
}

/// Pairs of marks, one after the other, in order.
pub open spec fn flatten_pairs<T>(pairs: Seq<(T, T)>) -> Seq<T>
    decreases pairs.len(),
{
    if pairs.len() == 0 {
        Seq::empty()
    } else {
        flatten_pairs(pairs.drop_last()).push(pairs.last().0).push(pairs.last().1)
    }
}

/// Laying pairs lays an even number of marks: two for each pair.
pub proof fn pairs_lay_two_marks_each<T>(pairs: Seq<(T, T)>)
    ensures
        flatten_pairs(pairs).len() == 2 * pairs.len(),
    decreases pairs.len(),
{
    if pairs.len() > 0 {
        pairs_lay_two_marks_each(pairs.drop_last());
    }
}

impl<T: Copy> MarkPool<T> {
    /// Lays each pair's two marks in order (the right wheel's, then the
    /// left's), each as `push` would.
    pub fn lay_pairs(&mut self, pairs: &[(T, T)])
        requires
            old(self).well_formed(),
        ensures
            final(self).well_formed(),
            final(self).spec_capacity() == old(self).spec_capacity(),
            final(self)@ == laid(old(self)@, flatten_pairs(pairs@), old(self).spec_capacity()),
    {
        let mut i: usize = 0;
        while i < pairs.len()
            invariant
                i <= pairs@.len(),
                self.well_formed(),
                self.spec_capacity() == old(self).spec_capacity(),
                self@ == laid(
                    old(self)@,
                    flatten_pairs(pairs@.take(i as int)),
                    old(self).spec_capacity(),
                ),
            decreases pairs@.len() - i,
        {
            let ghost cap = old(self).spec_capacity();
            let ghost prev = flatten_pairs(pairs@.take(i as int));
            let (a, b) = pairs[i];
            proof {
                assert(pairs@.take(i + 1).drop_last() =~= pairs@.take(i as int));
                let f = flatten_pairs(pairs@.take(i + 1));
                assert(f == prev.push(a).push(b));
                assert(f.drop_last() =~= prev.push(a));
                assert(prev.push(a).drop_last() =~= prev);
                assert(laid(old(self)@, prev.push(a), cap) == newest(laid(old(self)@, prev, cap).push(a), cap));
                assert(laid(old(self)@, f, cap) == newest(laid(old(self)@, prev.push(a), cap).push(b), cap));
            }
            self.push(a);
            self.push(b);
            i = i + 1;
        }
        assert(pairs@.take(pairs@.len() as int) =~= pairs@);
    }

}

/// Shortest step that lays tire marks, in hundredths of a world unit.
pub const MARK_MIN_STEP_CM: u32 = 25;

/// Step from which a jump lays no tire marks, in hundredths of a world unit.
pub const MARK_MAX_STEP_CM: u32 = 300;

/// What one Car's drift sample does to the tire marks: whether it lays a
/// pair (one under each rear wheel) and whether the Car's recorded pose
/// moves on to the sample. A Car seen for the first time only has its pose
/// recorded. After that a drifting Car lays a pair when it moved at least
/// the shortest step and less than the longest one since its recorded pose
/// (`moved_min`, `moved_max`: the distance reached each bound), and the
/// recorded pose follows unless a drifting Car has barely moved.
pub open spec fn spec_drift_step(known: bool, drifting: bool, moved_min: bool, moved_max: bool) -> (
    bool,
    bool,
) {
    (known && drifting && moved_min && !moved_max, !known || !drifting || moved_min)
}

/// Decides one Car's drift sample.
pub fn drift_step(known: bool, drifting: bool, moved_min: bool, moved_max: bool) -> (r: (bool, bool))
    ensures
        r == spec_drift_step(known, drifting, moved_min, moved_max),
{
    if !known {
        return (false, true);
    }
    let lays = drifting && moved_min && !moved_max;
    (lays, !drifting || moved_min)
}

/// Only a drifting Car lays marks, and a Car that is not drifting always
/// has its pose followed, so it starts a later drift from where it is.
pub proof fn only_drifting_cars_lay_marks(known: bool, drifting: bool, moved_min: bool, moved_max: bool)
    ensures
        spec_drift_step(known, drifting, moved_min, moved_max).0 ==> drifting && known,
        !drifting ==> spec_drift_step(known, drifting, moved_min, moved_max).1,
{
}

/// Shared airborne particle budget for every Car.
pub const PARTICLE_BUDGET: usize = 128;

/// Particles are emitted on every fourth effects tick.
pub const EMISSION_PERIOD: u32 = 4;

/// Ticks a smoke or dust particle stays airborne.
pub const PUFF_TICKS: u32 = 24;

/// Ticks a speed streak stays visible.
pub const STREAK_TICKS: u32 = 8;

/// What a particle shows: handbrake smoke of one Car, dust thrown up off
/// the road, or a speed streak behind the player.
#[derive(Debug, Clone, Copy, PartialEq, Eq, Structural)]
pub enum ParticleKind {
    Smoke(usize),
    Dust,
    Streak,
}

/// A particle of `age` ticks stays while young enough; smoke also vanishes
/// as soon as its Car stops smoking (`smoking[i]`: Car `i` holds the
/// handbrake while racing), without waiting for the next emission.
pub open spec fn spec_survives(kind: ParticleKind, age: u32, smoking: Seq<bool>) -> bool {
    match kind {
        ParticleKind::Smoke(car) => age < PUFF_TICKS && car < smoking.len() && smoking[car as int],
        ParticleKind::Streak => age < STREAK_TICKS,
        ParticleKind::Dust => age < PUFF_TICKS,
    }
}

/// Whether a particle stays airborne this tick.
pub fn survives(kind: ParticleKind, age: u32, smoking: &[bool]) -> (stays: bool)
    ensures
        stays == spec_survives(kind, age, smoking@),
{
    match kind {
        ParticleKind::Smoke(car) => age < PUFF_TICKS && car < smoking.len() && smoking[car],
        ParticleKind::Streak => age < STREAK_TICKS,
        ParticleKind::Dust => age < PUFF_TICKS,
    }
}

/// Whether the effects tick `tick` emits new particles.
pub fn emits(tick: u32) -> (e: bool)
    ensures
        e == (tick % EMISSION_PERIOD == 0),
{
    tick % EMISSION_PERIOD == 0
}

} // verus!
