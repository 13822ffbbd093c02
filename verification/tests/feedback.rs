use topdown_racer::effects::drift_step;
use topdown_racer::effects::{emits, survives, MarkPool, ParticleKind, SKID_BUDGET};
use topdown_racer::feedback::ContactGate;

#[test]
fn stationary_contact_chatter_requires_eight_clear_ticks_to_rearm() {
    let mut gate = ContactGate::new();
    assert!(gate.step(true));
    for _ in 0..64 {
        assert!(!gate.step(false));
        assert!(!gate.step(true));
    }
    for _ in 0..8 {
        gate.step(false);
    }
    assert!(gate.step(true));
}

#[test]
fn seven_clear_ticks_are_not_enough_and_held_contact_starts_once() {
    let mut gate = ContactGate::new();
    assert!(gate.step(true));
    for _ in 0..100 {
        assert!(!gate.step(true));
    }
    for _ in 0..7 {
        assert!(!gate.step(false));
    }
    assert!(!gate.step(true));
    for _ in 0..8 {
        gate.step(false);
    }
    assert!(gate.step(true));
}

#[test]
fn a_long_quiet_spell_saturates_and_stays_armed() {
    let mut gate = ContactGate { contact: false, quiet_ticks: u32::MAX - 1 };
    gate.step(false);
    gate.step(false);
    assert_eq!(gate.quiet_ticks, u32::MAX);
    assert!(gate.step(true));
    assert_eq!(gate.quiet_ticks, 0);
}

#[test]
fn mark_pool_keeps_the_newest_marks_in_order() {
    let mut pool = MarkPool::new(4);
    for mark in 0..10u32 {
        pool.push(mark);
        assert!(pool.len() <= 4);
    }
    let kept: Vec<u32> = (0..pool.len()).map(|i| *pool.get(i)).collect();
    assert_eq!(kept, vec![6, 7, 8, 9]);
    pool.clear();
    assert_eq!(pool.len(), 0);
    assert_eq!(pool.capacity(), 4);
}

#[test]
fn empty_pool_never_holds_marks() {
    let mut pool = MarkPool::new(0);
    for mark in 0..16u8 {
        pool.push(mark);
        assert_eq!(pool.len(), 0);
    }
}

#[test]
fn pool_stays_pinned_at_the_skid_budget() {
    let mut pool = MarkPool::new(SKID_BUDGET);
    for mark in 0..(SKID_BUDGET + 100) {
        pool.push(mark);
    }
    assert_eq!(pool.len(), SKID_BUDGET);
    assert_eq!(*pool.get(0), 100);
    assert_eq!(*pool.get(SKID_BUDGET - 1), SKID_BUDGET + 99);
}

#[test]
fn smoke_vanishes_with_its_car_and_puffs_and_streaks_age_out() {
    let smoking = [true, false];
    assert!(survives(ParticleKind::Smoke(0), 0, &smoking));
    assert!(survives(ParticleKind::Smoke(0), 23, &smoking));
    assert!(!survives(ParticleKind::Smoke(0), 24, &smoking));
    assert!(!survives(ParticleKind::Smoke(1), 1, &smoking));
    assert!(!survives(ParticleKind::Smoke(7), 1, &smoking));
    assert!(survives(ParticleKind::Dust, 23, &smoking));
    assert!(!survives(ParticleKind::Dust, 24, &smoking));
    assert!(survives(ParticleKind::Streak, 7, &smoking));
    assert!(!survives(ParticleKind::Streak, 8, &smoking));
    let emitting: Vec<u32> = (0..13).filter(|t| emits(*t)).collect();
    assert_eq!(emitting, vec![0, 4, 8, 12]);
}

#[test]
fn only_drifting_cars_that_moved_a_step_lay_marks() {
    // First sight: record the pose only.
    assert_eq!(drift_step(false, true, true, false), (false, true));
    // Drifting, moved between the bounds: a pair, pose follows.
    assert_eq!(drift_step(true, true, true, false), (true, true));
    // Drifting but barely moved: no marks, keep the old pose.
    assert_eq!(drift_step(true, true, false, false), (false, false));
    // A jump lays nothing.
    assert_eq!(drift_step(true, true, true, true), (false, true));
    // Gripping: nothing laid, pose follows.
    assert_eq!(drift_step(true, false, true, false), (false, true));
}

#[test]
fn an_impact_starts_only_after_eight_clear_ticks_whatever_came_before() {
    for (history, expected) in [
        (vec![], true),
        (vec![false, false], true),
        (vec![true], false),
        (vec![true, false, false, false, false, false, false, false], false),
        (vec![true, false, false, false, false, false, false, false, false], true),
        (vec![true, true, false, true, false, false, false, false, false, false, false, false], true),
    ] {
        let mut gate = ContactGate::new();
        for &contact in &history {
            gate.step(contact);
        }
        assert_eq!(gate.step(true), expected, "{history:?}");
    }
}

#[test]
fn laying_many_marks_keeps_the_newest() {
    let mut pool = MarkPool::new(4);
    pool.push(1u32);
    pool.push(2u32);
    pool.lay_pairs(&[(3, 4), (5, 6), (7, 8)]);
    let kept: Vec<u32> = (0..pool.len()).map(|i| *pool.get(i)).collect();
    assert_eq!(kept, vec![5, 6, 7, 8]);
    pool.lay_pairs(&[]);
    assert_eq!(pool.len(), 4);
}
