//! Hex-grid geometry: the distance metric between map positions, and paths
//! produced by the external pathfinder.

use vstd::prelude::*;

use crate::types::MapPos;

verus! {

/// Absolute value over the mathematical integers.
pub open spec fn abs_int(v: int) -> int {
    if v < 0 {
        -v
    } else {
        v
    }
}

/// Hex distance between two positions in axial coordinates: the number of
/// hex steps on the shortest route from `a` to `b`.
pub open spec fn spec_distance(a: MapPos, b: MapPos) -> int {
    let dx = b.x - a.x;
    let dy = b.y - a.y;
    (abs_int(dx) + abs_int(dy) + abs_int(dx + dy)) / 2
}

/// Hex distance between two positions. Returned as a wide integer so that the
/// computation cannot overflow for any pair of coordinates.
pub fn distance(a: &MapPos, b: &MapPos) -> (d: i64)
    ensures
        d == spec_distance(*a, *b),
        d >= 0,
{
    let dx: i64 = b.x as i64 - a.x as i64;
    let dy: i64 = b.y as i64 - a.y as i64;
    let ds: i64 = dx + dy;
    let adx: i64 = if dx < 0 {
        -dx
    } else {
        dx
    };
    let ady: i64 = if dy < 0 {
        -dy
    } else {
        dy
    };
    let ads: i64 = if ds < 0 {
        -ds
    } else {
        ds
    };
    (adx + ady + ads) / 2
}

/// An ordered sequence of waypoint positions, as the external pathfinder
/// returns it. The first waypoint is the mover's starting position. A path is
/// immutable once created; a truncated copy is made when reaction fire
/// interrupts a move.
#[derive(Debug)]
pub struct MapPath {
    nodes: Vec<MapPos>,
}

impl View for MapPath {
    type V = Seq<MapPos>;

    closed spec fn view(&self) -> Seq<MapPos> {
        self.nodes@
    }
}

impl Clone for MapPath {
    fn clone(&self) -> (res: Self)
        ensures
            res@ == self@,
    {
        let nodes = self.nodes.clone();
        proof {
            assert(nodes@ =~= self.nodes@);
        }
        MapPath { nodes }
    }
}

impl MapPath {
    /// Wraps a waypoint sequence as a path.
    pub fn new(nodes: Vec<MapPos>) -> (p: MapPath)
        ensures
            p@ == nodes@,
    {
        MapPath { nodes }
    }

    /// The waypoints of the path, in travel order.
    pub fn nodes(&self) -> (r: &Vec<MapPos>)
        ensures
            r@ == self@,
    {
        &self.nodes
    }
}

} // verus!
