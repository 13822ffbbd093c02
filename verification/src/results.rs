//! Results projection: the finishing table, ordered by the race's own
//! live positions.

use vstd::prelude::*;

use crate::hud::CarReadout;
use crate::race::RacePhase;
use crate::text::{format_opt_lap_time, opt_time_text};

verus! {

/// True only when the race phase warrants the results screen.
pub fn should_show_results(phase: RacePhase) -> (show: bool)
    ensures
        show <==> phase == RacePhase::Finished,
{
    match phase {
        RacePhase::Finished => true,
        _ => false,
    }
}

/// One row of the results table: finishing position, car number (grid
/// index plus one), and the formatted lap times.
#[derive(Debug, Clone, PartialEq, Eq)]
pub struct ResultRow {
    pub position: usize,
    pub car_number: usize,
    pub lap_times: Vec<String>,
    pub best_lap: String,
}

/// Car `a` is listed before car `b`: by live position, ties kept in grid
/// order.
pub open spec fn listed_before(snaps: Seq<CarReadout>, a: int, b: int) -> bool {
    snaps[a].position < snaps[b].position || (snaps[a].position == snaps[b].position && a < b)
}

/// `row` is the row of grid car `index`.
pub open spec fn row_of(row: ResultRow, snap: CarReadout, index: int) -> bool {
    &&& row.position == snap.position
    &&& row.car_number == index + 1
    &&& row.lap_times@.len() == snap.lap_times@.len()
    &&& forall|j: int|
        0 <= j < row.lap_times@.len() ==> #[trigger] row.lap_times@[j]@ == opt_time_text(
            snap.lap_times@[j],
        )
    &&& row.best_lap@ == opt_time_text(snap.best_lap_time)
}

/// Some row shows car number `car`.
pub open spec fn lists_car(rows: Seq<ResultRow>, car: int) -> bool {
    exists|k: int| 0 <= k < rows.len() && #[trigger] rows[k].car_number == car
}

/// The grid indices in listing order: a permutation of `0..n`, strictly
/// increasing in the listing order.
pub open spec fn listing(snaps: Seq<CarReadout>, order: Seq<usize>, n: int) -> bool {
    &&& order.len() == n
    &&& forall|k: int| 0 <= k < n ==> #[trigger] order[k] < n
    &&& forall|j: usize| j < n ==> #[trigger] order.contains(j)
    &&& forall|k: int, l: int|
        0 <= k < l < n ==> listed_before(snaps, #[trigger] order[k] as int, #[trigger] order[l] as int)
}

/// Grid indices `0..n` sorted by position, stable for equal positions.
fn listing_order(snaps: &[CarReadout]) -> (order: Vec<usize>)
    ensures
        listing(snaps@, order@, snaps@.len() as int),
{
    let n = snaps.len();
    let mut order: Vec<usize> = Vec::new();
    let mut i: usize = 0;
    while i < n
        invariant
            i <= n,
            n == snaps@.len(),
            listing(snaps@, order@, i as int),
        decreases n - i,
    {
        let key = snaps[i].position;
        let mut p: usize = 0;
        while p < order.len() && snaps[order[p]].position <= key
            invariant
                p <= order.len(),
                order.len() == i,
                i < n,
                n == snaps@.len(),
                listing(snaps@, order@, i as int),
                forall|k: int| 0 <= k < p ==> snaps@[#[trigger] order@[k] as int].position <= key,
            decreases order.len() - p,
        {
            p = p + 1;
        }
        let ghost before = order@;
        order.insert(p, i);
        proof {
            assert(order@ == before.insert(p as int, i));
            assert forall|j: usize| j < (i + 1) as int implies #[trigger] order@.contains(j) by {
                if j == i {
                    assert(order@[p as int] == i);
                } else {
                    assert(before.contains(j));
                    let q = choose|q: int| 0 <= q < before.len() && before[q] == j;
                    if q < p {
                        assert(order@[q] == j);
                    } else {
                        assert(order@[q + 1] == j);
                    }
                }
            }
            assert forall|k: int, l: int| 0 <= k < l < (i + 1) as int implies listed_before(
                snaps@,
                #[trigger] order@[k] as int,
                #[trigger] order@[l] as int,
            ) by {
                if k < p && l < p {
                    assert(order@[k] == before[k] && order@[l] == before[l]);
                } else if k < p && l == p {
                    assert(order@[k] == before[k]);
                    assert(snaps@[before[k] as int].position <= key);
                } else if k < p {
                    assert(order@[k] == before[k] && order@[l] == before[l - 1]);
                } else if k == p {
                    assert(order@[l] == before[l - 1]);
                    assert(snaps@[before[p as int] as int].position > key);
                    if p + 1 < l {
                        assert(listed_before(snaps@, before[p as int] as int, before[l - 1] as int));
                    }
                } else {
                    assert(order@[k] == before[k - 1] && order@[l] == before[l - 1]);
                }
            }
        }
        i = i + 1;
    }
    order
}

/// The formatted lap times of one car.
fn lap_time_texts(times: &Vec<Option<u32>>) -> (texts: Vec<String>)
    ensures
        texts@.len() == times@.len(),
        forall|j: int| 0 <= j < texts@.len() ==> #[trigger] texts@[j]@ == opt_time_text(times@[j]),
{
    let mut texts: Vec<String> = Vec::new();
    let mut j: usize = 0;
    while j < times.len()
        invariant
            j <= times@.len(),
            texts@.len() == j,
            forall|m: int| 0 <= m < j ==> #[trigger] texts@[m]@ == opt_time_text(times@[m]),
        decreases times@.len() - j,
    {
        texts.push(format_opt_lap_time(times[j]));
        j = j + 1;
    }
    texts
}

/// The results table: one row per car, listed by live position with ties
/// in grid order; it reuses the race's positions and adds no rules.
pub fn format_results(snaps: &[CarReadout]) -> (rows: Vec<ResultRow>)
    ensures
        rows@.len() == snaps@.len(),
        forall|k: int|
            0 <= k < rows@.len() ==> 1 <= #[trigger] rows@[k].car_number <= snaps@.len()
                && row_of(rows@[k], snaps@[rows@[k].car_number - 1], rows@[k].car_number - 1),
        forall|k: int, l: int|
            0 <= k < l < rows@.len() ==> listed_before(
                snaps@,
                #[trigger] rows@[k].car_number - 1,
                #[trigger] rows@[l].car_number - 1,
            ),
        forall|car: int| 1 <= car <= snaps@.len() ==> #[trigger] lists_car(rows@, car),
{
    let order = listing_order(snaps);
    let mut rows: Vec<ResultRow> = Vec::new();
    let mut k: usize = 0;
    while k < order.len()
        invariant
            k <= order@.len(),
            listing(snaps@, order@, snaps@.len() as int),
            rows@.len() == k,
            forall|m: int| 0 <= m < k ==> (#[trigger] rows@[m]).car_number == order@[m] + 1,
            forall|m: int|
                0 <= m < k ==> row_of(#[trigger] rows@[m], snaps@[order@[m] as int], order@[m] as int),
        decreases order@.len() - k,
    {
        let index = order[k];
        let snap = &snaps[index];
        let lap_times = lap_time_texts(&snap.lap_times);
        let best_lap = format_opt_lap_time(snap.best_lap_time);
        rows.push(ResultRow { position: snap.position, car_number: index + 1, lap_times, best_lap });
        k = k + 1;
    }
    proof {
        assert forall|k: int, l: int| 0 <= k < l < rows@.len() implies listed_before(
            snaps@,
            #[trigger] rows@[k].car_number - 1,
            #[trigger] rows@[l].car_number - 1,
        ) by {
            assert(rows@[k].car_number == order@[k] + 1);
            assert(rows@[l].car_number == order@[l] + 1);
            assert(listed_before(snaps@, order@[k] as int, order@[l] as int));
        }
        assert forall|car: int| 1 <= car <= snaps@.len() implies #[trigger] lists_car(rows@, car) by {
            assert(order@.contains((car - 1) as usize));
            let k = choose|k: int| 0 <= k < order@.len() && order@[k] == (car - 1) as usize;
            assert(rows@[k].car_number == car);
        }
    }
    rows
}

} // verus!
