//! Which pieces of the circuit's render geometry exist: the segments that
//! get road, edge lines and guardrails, and the triangle fan that fills a
//! terrain zone. The shapes themselves are binary32 geometry.

use vstd::prelude::*;

use crate::track::Surface;

verus! {

/// The surface drawn for segment `i`: its authored surface, or road where
/// none is listed.
pub open spec fn surface_at(surfaces: Seq<Surface>, i: int) -> Surface {
    if 0 <= i < surfaces.len() {
        surfaces[i]
    } else {
        Surface::Road
    }
}

/// Whether segment `i` gets road geometry: grass segments are left open.
pub open spec fn drawn(surfaces: Seq<Surface>, i: int) -> bool {
    surface_at(surfaces, i) != Surface::Grass
}

/// The segments of a loop of `segment_count` segments that get road
/// geometry, in order, each with the surface it is drawn with.
pub fn drawn_segments(surfaces: &Vec<Surface>, segment_count: usize) -> (v: Vec<(usize, Surface)>)
    ensures
        forall|k: int|
            0 <= k < v@.len() ==> (#[trigger] v@[k]).0 < segment_count && drawn(surfaces@, v@[k].0 as int)
                && v@[k].1 == surface_at(surfaces@, v@[k].0 as int),
        forall|k: int, l: int| 0 <= k < l < v@.len() ==> (#[trigger] v@[k]).0 < (#[trigger] v@[l]).0,
        forall|i: int|
            0 <= i < segment_count && drawn(surfaces@, i) ==> exists|k: int|
                0 <= k < v@.len() && (#[trigger] v@[k]).0 == i,
{
    let mut v: Vec<(usize, Surface)> = Vec::new();
    let mut i: usize = 0;
    while i < segment_count
        invariant
            i <= segment_count,
            forall|k: int|
                0 <= k < v@.len() ==> (#[trigger] v@[k]).0 < i && drawn(surfaces@, v@[k].0 as int)
                    && v@[k].1 == surface_at(surfaces@, v@[k].0 as int),
            forall|k: int, l: int| 0 <= k < l < v@.len() ==> (#[trigger] v@[k]).0 < (#[trigger] v@[l]).0,
            forall|j: int|
                0 <= j < i && drawn(surfaces@, j) ==> exists|k: int|
                    0 <= k < v@.len() && (#[trigger] v@[k]).0 == j,
        decreases segment_count - i,
    {
        let surface = if i < surfaces.len() {
            surfaces[i]
        } else {
            Surface::Road
        };
        let ghost before = v@;
        if surface != Surface::Grass {
            v.push((i, surface));
        }
        proof {
            assert forall|j: int| 0 <= j <= i && drawn(surfaces@, j) implies exists|k: int|
                0 <= k < v@.len() && (#[trigger] v@[k]).0 == j by {
                if j == i {
                    assert(v@[v@.len() - 1].0 == i);
                } else {
                    let k = choose|k: int| 0 <= k < before.len() && (#[trigger] before[k]).0 == j;
                    assert(v@[k] == before[k]);
                }
            }
        }
        i = i + 1;
    }
    v
}

/// The triangle fan that fills a zone outline of `vertex_count` vertices:
/// `(0, i, i + 1)` for each `i` from 1 to `vertex_count - 2`; nothing for
/// fewer than three vertices.
pub fn zone_fan(vertex_count: usize) -> (fan: Vec<(usize, usize, usize)>)
    ensures
        vertex_count < 3 ==> fan@.len() == 0,
        vertex_count >= 3 ==> fan@.len() == vertex_count - 2,
        forall|k: int|
            0 <= k < fan@.len() ==> #[trigger] fan@[k] == (0usize, (k + 1) as usize, (k + 2) as usize),
{
    let mut fan: Vec<(usize, usize, usize)> = Vec::new();
    if vertex_count < 3 {
        return fan;
    }
    let mut i: usize = 1;
    while i < vertex_count - 1
        invariant
            3 <= vertex_count,
            1 <= i <= vertex_count - 1,
            fan@.len() == i - 1,
            forall|k: int| 0 <= k < fan@.len() ==> #[trigger] fan@[k] == (0usize, (k + 1) as usize, (k + 2) as usize),
        decreases vertex_count - i,
    {
        fan.push((0, i, i + 1));
        i = i + 1;
    }
    fan
}

} // verus!
