//! Regions of a plane that are pressed flat.

use vstd::prelude::*;
use crate::geometry::{AABB, AABBs, EdgeLine, edges_of_all};
use crate::scalar::{SCALE, lemma_lerp_between, lerp, lerp_spec};

verus! {

/// A rectangle given by fractions of a plane's extents: zero is the
/// plane's lower bound on an axis and one unit its upper bound.
#[derive(Debug, Clone, Copy, PartialEq, Eq, Structural)]
pub struct RegionData {
    pub from_x: i64,
    pub to_x: i64,
    pub from_z: i64,
    pub to_z: i64,
}

/// The description of a stage that flattens one region.
#[derive(Debug, Clone, Copy, PartialEq, Eq, Structural)]
pub struct FlatEdgeData {
    pub region: RegionData,
    pub height: i64,
}

/// The description of a stage that flattens several regions.
#[derive(Debug)]
pub struct FlatEdgesData {
    pub regions: Vec<RegionData>,
    pub height: i64,
}

/// A stage that flattens one rectangle of its plane.
#[derive(Debug, Clone, Copy, PartialEq, Eq, Structural)]
pub struct FlatEdge {
    pub aabbs: AABB,
    pub height: i64,
}

/// A stage that flattens several rectangles of its plane.
#[derive(Debug, Clone)]
pub struct FlatEdges {
    pub aabbs: AABBs,
    pub height: i64,
}

impl RegionData {
    /// Whether the region ends no earlier than it starts, on both axes.
    pub open spec fn wf(self) -> bool {
        self.from_x <= self.to_x && self.from_z <= self.to_z
    }

    /// Whether all four fractions lie in the unit interval, so that the
    /// region lies within the plane it is a part of.
    pub open spec fn is_inside(self) -> bool {
        &&& 0 <= self.from_x <= SCALE && 0 <= self.to_x <= SCALE
        &&& 0 <= self.from_z <= SCALE && 0 <= self.to_z <= SCALE
    }

    /// The rectangle that the region is in a plane with the bounds `plane`.
    pub open spec fn resolve_spec(self, plane: AABB) -> AABB {
        AABB {
            min_x: lerp_spec(plane.min_x as int, plane.max_x as int, self.from_x as int) as i64,
            max_x: lerp_spec(plane.min_x as int, plane.max_x as int, self.to_x as int) as i64,
            min_z: lerp_spec(plane.min_z as int, plane.max_z as int, self.from_z as int) as i64,
            max_z: lerp_spec(plane.min_z as int, plane.max_z as int, self.to_z as int) as i64,
        }
    }

    /// Tells whether the region ends no earlier than it starts.
    pub fn is_consistent(&self) -> (r: bool)
        ensures
            r == self.wf(),
    {
        self.from_x <= self.to_x && self.from_z <= self.to_z
    }

    /// Places the region in a plane with the bounds `plane`.
    pub fn resolve(&self, plane: &AABB) -> (r: AABB)
        ensures
            r == self.resolve_spec(*plane),
            self.wf() && plane.wf() ==> r.wf(),
            self.is_inside() && plane.wf() ==> plane.contains_spec(r.min_x as int, r.min_z as int)
                && plane.contains_spec(r.max_x as int, r.max_z as int),
    {
        proof {
            if self.is_inside() && plane.wf() {
                lemma_lerp_between(plane.min_x as int, plane.max_x as int, self.from_x as int);
                lemma_lerp_between(plane.min_x as int, plane.max_x as int, self.to_x as int);
                lemma_lerp_between(plane.min_z as int, plane.max_z as int, self.from_z as int);
                lemma_lerp_between(plane.min_z as int, plane.max_z as int, self.to_z as int);
            }
            if self.wf() && plane.wf() {
                lemma_lerp_monotonic(
                    plane.min_x as int,
                    plane.max_x as int,
                    self.from_x as int,
                    self.to_x as int,
                );
                lemma_lerp_monotonic(
                    plane.min_z as int,
                    plane.max_z as int,
                    self.from_z as int,
                    self.to_z as int,
                );
            }
        }
        AABB {
            min_x: lerp(plane.min_x, plane.max_x, self.from_x),
            max_x: lerp(plane.min_x, plane.max_x, self.to_x),
            min_z: lerp(plane.min_z, plane.max_z, self.from_z),
            max_z: lerp(plane.min_z, plane.max_z, self.to_z),
        }
    }
}

impl FlatEdgeData {
    /// The stage that this description stands for in a plane with the
    /// bounds `plane`.
    pub open spec fn set_spec(self, plane: AABB) -> FlatEdge {
        FlatEdge { aabbs: self.region.resolve_spec(plane), height: self.height }
    }

    /// Makes the stage that this description stands for in a plane with
    /// the bounds `plane`.
    pub fn set(&self, plane: &AABB) -> (r: FlatEdge)
        ensures
            r == self.set_spec(*plane),
    {
        FlatEdge { aabbs: self.region.resolve(plane), height: self.height }
    }
}

impl Clone for FlatEdgesData {
    /// A description that says the same.
    fn clone(&self) -> (r: Self)
        ensures
            r.height == self.height,
            r.regions@ == self.regions@,
    {
        let mut regions: Vec<RegionData> = Vec::new();
        let mut i: usize = 0;
        while i < self.regions.len()
            invariant
                i <= self.regions@.len(),
                regions@ == self.regions@.take(i as int),
            decreases self.regions@.len() - i,
        {
            regions.push(self.regions[i]);
            proof {
                assert(regions@ =~= self.regions@.take(i + 1));
            }
            i = i + 1;
        }
        proof {
            assert(self.regions@.take(i as int) =~= self.regions@);
        }
        FlatEdgesData { regions, height: self.height }
    }
}

impl FlatEdgesData {
    /// The regions of the description, placed in a plane with the bounds
    /// `plane`, in their order.
    pub open spec fn resolved_spec(self, plane: AABB) -> Seq<AABB> {
        self.regions@.map_values(|region: RegionData| region.resolve_spec(plane))
    }

    /// Whether `stage` is what this description stands for in a plane with
    /// the bounds `plane`.
    pub open spec fn is_set(self, plane: AABB, stage: FlatEdges) -> bool {
        stage.height == self.height && stage.aabbs.items@ == self.resolved_spec(plane)
    }

    /// Makes the stage that this description stands for in a plane with
    /// the bounds `plane`.
    pub fn set(&self, plane: &AABB) -> (r: FlatEdges)
        ensures
            self.is_set(*plane, r),
    {
        let mut items: Vec<AABB> = Vec::new();
        let mut i: usize = 0;
        while i < self.regions.len()
            invariant
                i <= self.regions@.len(),
                items@.len() == i,
                forall|j: int| 0 <= j < i ==> #[trigger] items@[j] == self.regions@[j].resolve_spec(*plane),
            decreases self.regions@.len() - i,
        {
            items.push(self.regions[i].resolve(plane));
            i = i + 1;
        }
        proof {
            assert(items@ =~= self.resolved_spec(*plane));
        }
        FlatEdges { aabbs: AABBs { items }, height: self.height }
    }
}

impl FlatEdge {
    /// The height of a vertex at `(x, z)` that had the height `height`:
    /// the flat height inside the rectangle and on its border, the old
    /// height outside.
    pub open spec fn apply_spec(self, x: int, height: int, z: int) -> int {
        if self.aabbs.contains_spec(x, z) {
            self.height as int
        } else {
            height
        }
    }

    /// The height that the stage gives the vertex at `pos`.
    pub fn apply(&self, pos: &[i64; 3]) -> (r: i64)
        ensures
            r == self.apply_spec(pos[0] as int, pos[1] as int, pos[2] as int),
    {
        if self.aabbs.contains(pos[0], pos[2]) {
            self.height
        } else {
            pos[1]
        }
    }

    /// The boundary that the rectangle leaves in a plane with the bounds
    /// `plane`, at the flat height.
    pub fn to_edges(&self, plane: &AABB) -> (r: Vec<EdgeLine>)
        ensures
            r@ == self.aabbs.edges_spec(*plane, self.height),
            forall|i: int| 0 <= i < r@.len() ==> (#[trigger] r@[i]).wf() && r@[i].within(*plane),
    {
        self.aabbs.to_edges_at(plane, self.height)
    }
}

impl FlatEdges {
    /// The height of a vertex at `(x, z)` that had the height `height`:
    /// the flat height inside any of the rectangles and on their borders,
    /// the old height outside all of them.
    pub open spec fn apply_spec(self, x: int, height: int, z: int) -> int {
        if self.aabbs.contains_spec(x, z) {
            self.height as int
        } else {
            height
        }
    }

    /// The height that the stage gives the vertex at `pos`.
    pub fn apply(&self, pos: &[i64; 3]) -> (r: i64)
        ensures
            r == self.apply_spec(pos[0] as int, pos[1] as int, pos[2] as int),
    {
        if self.aabbs.contains(pos[0], pos[2]) {
            self.height
        } else {
            pos[1]
        }
    }

    /// The boundaries that the rectangles leave in a plane with the bounds
    /// `plane`, at the flat height.
    pub fn to_edges(&self, plane: &AABB) -> (r: Vec<EdgeLine>)
        ensures
            r@ == edges_of_all(self.aabbs.items@, *plane, self.height),
            forall|i: int| 0 <= i < r@.len() ==> (#[trigger] r@[i]).wf() && r@[i].within(*plane),
    {
        self.aabbs.to_edges_at(plane, self.height)
    }
}

/// A vertex strictly inside one of the rectangles of a flattening stage
/// gets the flat height; a vertex outside all of them keeps its own.
pub proof fn flat_edges_membership(stage: FlatEdges, i: int, x: int, height: int, z: int)
    requires
        0 <= i < stage.aabbs.items@.len(),
    ensures
        stage.aabbs.items@[i].strictly_contains(x, z) ==> stage.apply_spec(x, height, z) == stage.height,
        stage.aabbs.items@[i].contains_spec(x, z) ==> stage.apply_spec(x, height, z) == stage.height,
        (forall|j: int| 0 <= j < stage.aabbs.items@.len() ==> !(#[trigger] stage.aabbs.items@[j]).contains_spec(x, z))
            ==> stage.apply_spec(x, height, z) == height,
{
}

/// Between a lower and an upper value, a greater fraction gives a value
/// that is no less.
pub proof fn lemma_lerp_monotonic(low: int, high: int, t1: int, t2: int)
    requires
        low <= high,
        t1 <= t2,
    ensures
        lerp_spec(low, high, t1) <= lerp_spec(low, high, t2),
{
    let span: int = high - low;
    assert(t1 * span <= t2 * span) by (nonlinear_arith)
        requires
            t1 <= t2,
            0 <= span,
    ;
    vstd::arithmetic::div_mod::lemma_div_is_ordered(t1 * span, t2 * span, SCALE as int);
}

} // verus!
