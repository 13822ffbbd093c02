//! Race positions. Cars that took the flag come first, by place; then the
//! Cars still racing, by their live progress; then the DNF Cars, by their
//! progress. Every Car holds exactly one position, and no two Cars share
//! one.

use vstd::prelude::*;

use crate::race::{places_valid, FinishStatus, RaceState};

verus! {

/// Car `i` appears somewhere in `order`.
pub open spec fn listed(order: Seq<usize>, i: int) -> bool {
    exists|r: int| 0 <= r < order.len() && (#[trigger] order[r]) == i
}

/// `order` lists each of the Cars `0..n` exactly once.
pub open spec fn is_running_order(order: Seq<usize>, n: int) -> bool {
    &&& order.len() == n
    &&& forall|r: int| 0 <= r < n ==> (#[trigger] order[r]) < n
    &&& forall|r: int, q: int| 0 <= r < q < n ==> (#[trigger] order[r]) != (#[trigger] order[q])
    &&& forall|i: int| 0 <= i < n ==> #[trigger] listed(order, i)
}

/// Each Car's position (from 1) given the running order.
pub fn positions_from_order(order: &Vec<usize>) -> (pos: Vec<usize>)
    requires
        is_running_order(order@, order@.len() as int),
    ensures
        pos@.len() == order@.len(),
        forall|r: int| 0 <= r < order@.len() ==> #[trigger] pos@[order@[r] as int] == r + 1,
        forall|i: int| 0 <= i < pos@.len() ==> 1 <= #[trigger] pos@[i] <= pos@.len(),
        forall|i: int, j: int| 0 <= i < j < pos@.len() ==> (#[trigger] pos@[i]) != (#[trigger] pos@[j]),
{
    let n = order.len();
    let mut pos: Vec<usize> = Vec::new();
    let mut k: usize = 0;
    while k < n
        invariant
            k <= n,
            n == order@.len(),
            pos@.len() == k,
            forall|i: int| 0 <= i < k ==> #[trigger] pos@[i] == 0,
        decreases n - k,
    {
        pos.push(0);
        k = k + 1;
    }
    let mut r: usize = 0;
    while r < n
        invariant
            r <= n,
            n == order@.len(),
            pos@.len() == n,
            is_running_order(order@, n as int),
            forall|q: int| 0 <= q < r ==> #[trigger] pos@[order@[q] as int] == q + 1,
            forall|i: int|
                0 <= i < n ==> (#[trigger] pos@[i] == 0 || exists|q: int|
                    0 <= q < r && order@[q] == i),
            forall|q: int| r <= q < n ==> #[trigger] pos@[order@[q] as int] == 0,
        decreases n - r,
    {
        let car = order[r];
        let ghost before = pos@;
        pos.set(car, r + 1);
        proof {
            assert forall|q: int| r < q < n implies #[trigger] pos@[order@[q] as int] == 0 by {
                assert(order@[q] != order@[r as int]);
            }
            assert forall|q: int| 0 <= q < r implies #[trigger] pos@[order@[q] as int] == q + 1 by {
                assert(order@[q] != order@[r as int]);
            }
            assert forall|i: int|
                0 <= i < n implies (#[trigger] pos@[i] == 0 || exists|q: int|
                    0 <= q < r + 1 && order@[q] == i) by {
                if i == car {
                    assert(order@[r as int] == i);
                } else {
                    assert(pos@[i] == before[i]);
                }
            }
        }
        r = r + 1;
    }
    proof {
        assert forall|i: int| 0 <= i < n implies 1 <= #[trigger] pos@[i] <= n by {
            assert(listed(order@, i));
            let q = choose|q: int| 0 <= q < n && (#[trigger] order@[q]) == i;
            assert(pos@[order@[q] as int] == q + 1);
        }
        assert forall|i: int, j: int| 0 <= i < j < n implies (#[trigger] pos@[i]) != (#[trigger] pos@[j]) by {
            assert(listed(order@, i) && listed(order@, j));
            let a = choose|q: int| 0 <= q < n && (#[trigger] order@[q]) == i;
            let b = choose|q: int| 0 <= q < n && (#[trigger] order@[q]) == j;
            assert(pos@[order@[a] as int] == a + 1);
            assert(pos@[order@[b] as int] == b + 1);
        }
    }
    pos
}


/// Standing class: flagged Cars first, then Cars racing, then DNF.
pub open spec fn class_of(status: FinishStatus) -> int {
    match status {
        FinishStatus::Finished { .. } => 0,
        FinishStatus::Racing => 1,
        FinishStatus::Dnf => 2,
    }
}

/// Order inside a class: the place of a flagged Car, else the live
/// progress rank.
pub open spec fn class_key(finish: Seq<FinishStatus>, progress: Seq<usize>, j: int) -> int {
    match finish[j] {
        FinishStatus::Finished { place } => place as int,
        _ => progress[j] as int,
    }
}

/// No two flagged Cars share a place and no two Cars share a progress rank.
pub open spec fn keys_distinct(finish: Seq<FinishStatus>, progress: Seq<usize>) -> bool {
    &&& progress.len() == finish.len()
    &&& forall|a: int, b: int|
        0 <= a < finish.len() && 0 <= b < finish.len() && a != b && class_of(finish[a])
            == class_of(finish[b]) ==> #[trigger] class_key(finish, progress, a) != #[trigger] class_key(
            finish,
            progress,
            b,
        )
}

/// Cars among the first `m` in class `c`.
pub open spec fn class_count(finish: Seq<FinishStatus>, c: int, m: int) -> nat
    decreases m,
{
    if m <= 0 {
        0
    } else {
        class_count(finish, c, m - 1) + if class_of(finish[m - 1]) == c {
            1nat
        } else {
            0nat
        }
    }
}

/// Cars among the first `m` in Car `i`'s class and ahead of it there.
pub open spec fn ahead(finish: Seq<FinishStatus>, progress: Seq<usize>, i: int, m: int) -> nat
    decreases m,
{
    if m <= 0 {
        0
    } else {
        ahead(finish, progress, i, m - 1) + if class_of(finish[m - 1]) == class_of(finish[i])
            && class_key(finish, progress, m - 1) < class_key(finish, progress, i) {
            1nat
        } else {
            0nat
        }
    }
}

/// Positions before class `c`.
pub open spec fn class_offset(finish: Seq<FinishStatus>, c: int) -> nat {
    let n = finish.len() as int;
    if c == 0 {
        0
    } else if c == 1 {
        class_count(finish, 0, n)
    } else {
        class_count(finish, 0, n) + class_count(finish, 1, n)
    }
}

/// Car `i`'s position.
pub open spec fn standing(finish: Seq<FinishStatus>, progress: Seq<usize>, i: int) -> int {
    (class_offset(finish, class_of(finish[i])) + ahead(finish, progress, i, finish.len() as int) + 1) as int
}

proof fn lemma_counts_add_up(finish: Seq<FinishStatus>, m: int)
    requires
        0 <= m <= finish.len(),
    ensures
        class_count(finish, 0, m) + class_count(finish, 1, m) + class_count(finish, 2, m) == m,
    decreases m,
{
    if m > 0 {
        lemma_counts_add_up(finish, m - 1);
    }
}

proof fn lemma_ahead_below_class(finish: Seq<FinishStatus>, progress: Seq<usize>, i: int, m: int)
    requires
        0 <= m <= finish.len(),
        0 <= i < finish.len(),
    ensures
        ahead(finish, progress, i, m) + (if i < m {
            1int
        } else {
            0int
        }) <= class_count(finish, class_of(finish[i]), m),
    decreases m,
{
    if m > 0 {
        lemma_ahead_below_class(finish, progress, i, m - 1);
    }
}

proof fn lemma_ahead_grows(finish: Seq<FinishStatus>, progress: Seq<usize>, i: int, k: int, m: int)
    requires
        0 <= m <= finish.len(),
        0 <= i < finish.len(),
        0 <= k < finish.len(),
        class_of(finish[i]) == class_of(finish[k]),
        class_key(finish, progress, i) < class_key(finish, progress, k),
    ensures
        ahead(finish, progress, i, m) + (if i < m {
            1int
        } else {
            0int
        }) <= ahead(finish, progress, k, m),
    decreases m,
{
    if m > 0 {
        lemma_ahead_grows(finish, progress, i, k, m - 1);
    }
}

/// Every Car holds one position between 1 and the field size, and no two
/// Cars share one; flagged Cars come before racing ones, and racing ones
/// before DNF ones.
pub proof fn standings_are_a_ranking(finish: Seq<FinishStatus>, progress: Seq<usize>)
    requires
        keys_distinct(finish, progress),
    ensures
        forall|i: int|
            0 <= i < finish.len() ==> 1 <= #[trigger] standing(finish, progress, i) <= finish.len(),
        forall|i: int, k: int|
            0 <= i < finish.len() && 0 <= k < finish.len() && i != k ==> #[trigger] standing(
                finish,
                progress,
                i,
            ) != #[trigger] standing(finish, progress, k),
        forall|i: int, k: int|
            0 <= i < finish.len() && 0 <= k < finish.len() && class_of(finish[i]) < class_of(
                finish[k],
            ) ==> #[trigger] standing(finish, progress, i) < #[trigger] standing(
                finish,
                progress,
                k,
            ),
{
    let n = finish.len() as int;
    lemma_counts_add_up(finish, n);
    assert forall|i: int| 0 <= i < n implies 1 <= #[trigger] standing(finish, progress, i) <= n by {
        lemma_ahead_below_class(finish, progress, i, n);
    }
    assert forall|i: int, k: int|
        0 <= i < n && 0 <= k < n && class_of(finish[i]) < class_of(finish[k]) implies #[trigger] standing(
        finish,
        progress,
        i,
    ) < #[trigger] standing(finish, progress, k) by {
        lemma_ahead_below_class(finish, progress, i, n);
    }
    assert forall|i: int, k: int|
        0 <= i < n && 0 <= k < n && i != k implies #[trigger] standing(finish, progress, i)
        != #[trigger] standing(finish, progress, k) by {
        lemma_ahead_below_class(finish, progress, i, n);
        lemma_ahead_below_class(finish, progress, k, n);
        if class_of(finish[i]) == class_of(finish[k]) {
            assert(class_key(finish, progress, i) != class_key(finish, progress, k));
            if class_key(finish, progress, i) < class_key(finish, progress, k) {
                lemma_ahead_grows(finish, progress, i, k, n);
            } else {
                lemma_ahead_grows(finish, progress, k, i, n);
            }
        }
    }
}

fn class_exec(status: FinishStatus) -> (c: u8)
    ensures
        c as int == class_of(status),
{
    match status {
        FinishStatus::Finished { .. } => 0,
        FinishStatus::Racing => 1,
        FinishStatus::Dnf => 2,
    }
}

fn key_exec(finish: &Vec<FinishStatus>, progress: &Vec<usize>, j: usize) -> (k: usize)
    requires
        j < finish@.len(),
        progress@.len() == finish@.len(),
    ensures
        k as int == class_key(finish@, progress@, j as int),
{
    match finish[j] {
        FinishStatus::Finished { place } => place,
        _ => progress[j],
    }
}

/// Each Car's position (`progress[i]`: Car `i`'s rank in the live progress
/// order, any distinct numbers): flagged Cars by place, then racing Cars,
/// then DNF Cars, each by progress.
pub fn race_positions(finish: &Vec<FinishStatus>, progress: &Vec<usize>) -> (pos: Vec<usize>)
    requires
        keys_distinct(finish@, progress@),
    ensures
        pos@.len() == finish@.len(),
        forall|i: int| 0 <= i < pos@.len() ==> #[trigger] pos@[i] as int == standing(finish@, progress@, i),
{
    let n = finish.len();
    let mut counts: [usize; 3] = [0, 0, 0];
    let mut m: usize = 0;
    while m < n
        invariant
            m <= n,
            n == finish@.len(),
            counts[0] as int == class_count(finish@, 0, m as int),
            counts[1] as int == class_count(finish@, 1, m as int),
            counts[2] as int == class_count(finish@, 2, m as int),
        decreases n - m,
    {
        proof {
            lemma_counts_add_up(finish@, m as int);
        }
        let c = class_exec(finish[m]);
        if c == 0 {
            counts[0] = counts[0] + 1;
        } else if c == 1 {
            counts[1] = counts[1] + 1;
        } else {
            counts[2] = counts[2] + 1;
        }
        m = m + 1;
    }
    proof {
        lemma_counts_add_up(finish@, n as int);
    }
    let mut pos: Vec<usize> = Vec::new();
    let mut i: usize = 0;
    while i < n
        invariant
            i <= n,
            n == finish@.len(),
            keys_distinct(finish@, progress@),
            counts[0] as int == class_count(finish@, 0, n as int),
            counts[1] as int == class_count(finish@, 1, n as int),
            counts[2] as int == class_count(finish@, 2, n as int),
            pos@.len() == i,
            forall|k: int| 0 <= k < i ==> #[trigger] pos@[k] as int == standing(finish@, progress@, k),
        decreases n - i,
    {
        let ci = class_exec(finish[i]);
        let ki = key_exec(finish, progress, i);
        let mut before: usize = 0;
        let mut j: usize = 0;
        while j < n
            invariant
                j <= n,
                i < n,
                n == finish@.len(),
                progress@.len() == n,
                ci as int == class_of(finish@[i as int]),
                ki as int == class_key(finish@, progress@, i as int),
                before as int == ahead(finish@, progress@, i as int, j as int),
            decreases n - j,
        {
            proof {
                lemma_ahead_below_class(finish@, progress@, i as int, j as int);
                lemma_counts_add_up(finish@, j as int);
            }
            if class_exec(finish[j]) == ci && key_exec(finish, progress, j) < ki {
                before = before + 1;
            }
            j = j + 1;
        }
        proof {
            lemma_ahead_below_class(finish@, progress@, i as int, n as int);
            lemma_counts_add_up(finish@, n as int);
        }
        let offset = if ci == 0 {
            0
        } else if ci == 1 {
            counts[0]
        } else {
            counts[0] + counts[1]
        };
        pos.push(offset + before + 1);
        i = i + 1;
    }
    pos
}


/// A well-formed race gives every flagged Car its own place, so any
/// progress ranks that are all different make a valid standing input.
pub proof fn race_places_are_distinct(race: RaceState, progress: Seq<usize>)
    requires
        race.well_formed(),
        progress.len() == race.finish@.len(),
        forall|a: int, b: int|
            0 <= a < progress.len() && 0 <= b < progress.len() && a != b ==> #[trigger] progress[a]
                != #[trigger] progress[b],
    ensures
        keys_distinct(race.finish@, progress),
{
    let f = race.finish@;
    assert(places_valid(f, race.finishers as int));
    assert forall|a: int, b: int|
        0 <= a < f.len() && 0 <= b < f.len() && a != b && class_of(f[a]) == class_of(f[b]) implies #[trigger] class_key(
        f,
        progress,
        a,
    ) != #[trigger] class_key(f, progress, b) by {
        if f[a] is Finished {
            assert(f[a]->place != f[b]->place);
        } else {
            assert(progress[a] != progress[b]);
        }
    }
}

} // verus!
