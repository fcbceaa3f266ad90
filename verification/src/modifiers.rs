//! The stages of a plane's pipeline.
//!
//! A stage has a description, which is kept with the plane, and a form
//! that is bound to one plane's bounds and origin and does the work. Each
//! stage gives every vertex a height, may give vertices new heights once
//! all stages have done so, and may leave boundaries in the plane for
//! other stages to smooth towards.

use vstd::prelude::*;
use crate::easings::EasingData;
use crate::flat::{FlatEdge, FlatEdgeData, FlatEdges, FlatEdgesData};
use crate::geometry::{AABB, EdgeLine, any_contains, edges_of_all};
use crate::noise::{Noise, NoiseData};
use crate::overrides::lists_entries;
use crate::planes::PlaneData;
use crate::smooth::{SmoothEdge, SmoothEdgeData, smoothed_height_spec};
use crate::wander::{TargetWanderNoise, TargetWanderNoiseData};

verus! {

/// The description of a stage.
#[derive(Debug)]
pub enum ModifierData {
    Easing(EasingData),
    FlatEdges(FlatEdgesData),
    FlatEdge(FlatEdgeData),
    Noise(NoiseData),
    SmoothEdge(SmoothEdgeData),
    TargetWanderNoise(TargetWanderNoiseData),
}

/// A stage bound to one plane.
#[derive(Debug, Clone)]
pub enum Modifier {
    Easing(EasingData),
    FlatEdges(FlatEdges),
    FlatEdge(FlatEdge),
    Noise(Noise),
    SmoothEdge(SmoothEdge),
    TargetWanderNoise(TargetWanderNoise),
}

impl Clone for ModifierData {
    /// A description that says the same.
    fn clone(&self) -> (r: Self)
        ensures
            self.same_as(r),
    {
        match self {
            ModifierData::Easing(data) => ModifierData::Easing(*data),
            ModifierData::FlatEdges(data) => ModifierData::FlatEdges(data.clone()),
            ModifierData::FlatEdge(data) => ModifierData::FlatEdge(*data),
            ModifierData::Noise(data) => ModifierData::Noise(*data),
            ModifierData::SmoothEdge(data) => ModifierData::SmoothEdge(*data),
            ModifierData::TargetWanderNoise(data) => ModifierData::TargetWanderNoise(*data),
        }
    }
}

impl ModifierData {
    /// Whether the regions that the description names end no earlier than
    /// they start, and its reach is not negative.
    pub open spec fn wf(self) -> bool {
        match self {
            ModifierData::FlatEdges(data) => forall|i: int|
                0 <= i < data.regions@.len() ==> (#[trigger] data.regions@[i]).wf(),
            ModifierData::FlatEdge(data) => data.region.wf(),
            ModifierData::TargetWanderNoise(data) => data.reach >= 0,
            _ => true,
        }
    }

    /// Whether `stage` is what the description stands for in a plane with
    /// the bounds `plane` and the origin `(origin_x, origin_z)`.
    pub open spec fn resolves_to(self, plane: AABB, origin_x: i64, origin_z: i64, stage: Modifier) -> bool {
        match self {
            ModifierData::Easing(data) => stage == Modifier::Easing(data),
            ModifierData::FlatEdges(data) => stage is FlatEdges && data.is_set(
                plane,
                stage->FlatEdges_0,
            ),
            ModifierData::FlatEdge(data) => stage == Modifier::FlatEdge(data.set_spec(plane)),
            ModifierData::Noise(data) => stage == Modifier::Noise(data.set_spec()),
            ModifierData::SmoothEdge(data) => {
                &&& stage is SmoothEdge
                &&& stage->SmoothEdge_0.radius == data.radius
                &&& stage->SmoothEdge_0.easing == data.easing
                &&& stage->SmoothEdge_0.edges@.len() == 0
            },
            ModifierData::TargetWanderNoise(data) => stage == Modifier::TargetWanderNoise(
                data.set_spec(plane, origin_x, origin_z),
            ),
        }
    }

    /// The height that the stage gives a vertex at `(x, z)` with the
    /// height `height`, in a plane with the bounds `plane` and the origin
    /// `(origin_x, origin_z)`.
    pub open spec fn point_spec(
        self,
        plane: AABB,
        origin_x: i64,
        origin_z: i64,
        x: int,
        height: int,
        z: int,
    ) -> int {
        match self {
            ModifierData::Easing(data) => data.easing.apply_spec(height),
            ModifierData::FlatEdges(data) => if any_contains(data.resolved_spec(plane), x, z) {
                data.height as int
            } else {
                height
            },
            ModifierData::FlatEdge(data) => data.set_spec(plane).apply_spec(x, height, z),
            ModifierData::Noise(data) => data.set_spec().apply_spec(
                x,
                height,
                z,
                origin_x as int,
                origin_z as int,
            ),
            ModifierData::SmoothEdge(_) => height,
            ModifierData::TargetWanderNoise(data) => data.set_spec(
                plane,
                origin_x,
                origin_z,
            ).apply_spec(x, height, z),
        }
    }

    /// The height that the stage gives a vertex at `(x, z)` with the
    /// height `height` in its area pass, with `edges` as the boundaries of
    /// all stages.
    pub open spec fn area_spec(self, edges: Seq<EdgeLine>, x: int, height: int, z: int) -> int {
        match self {
            ModifierData::SmoothEdge(data) => match smoothed_height_spec(
                edges,
                data.radius as int,
                data.easing,
                x,
                height,
                z,
            ) {
                Some(h) => h,
                None => height,
            },
            _ => height,
        }
    }

    /// The boundaries that the stage leaves in a plane with the bounds
    /// `plane`: those of its flat regions at the flat height, or that of
    /// the square around its target at height zero.
    pub open spec fn inner_edges_spec(self, plane: AABB, origin_x: i64, origin_z: i64) -> Seq<EdgeLine> {
        match self {
            ModifierData::FlatEdges(data) => edges_of_all(data.resolved_spec(plane), plane, data.height),
            ModifierData::FlatEdge(data) => data.region.resolve_spec(plane).edges_spec(
                plane,
                data.height,
            ),
            ModifierData::TargetWanderNoise(data) => data.set_spec(
                plane,
                origin_x,
                origin_z,
            ).region.edges_spec(plane, 0),
            _ => Seq::empty(),
        }
    }

    /// Whether the two descriptions say the same.
    pub open spec fn same_as(self, other: ModifierData) -> bool {
        match (self, other) {
            (ModifierData::FlatEdges(a), ModifierData::FlatEdges(b)) => a.height == b.height
                && a.regions@ == b.regions@,
            (ModifierData::FlatEdges(_), _) => false,
            (_, ModifierData::FlatEdges(_)) => false,
            _ => self == other,
        }
    }

    /// Binds the description to the plane `pd`.
    pub fn set(&self, pd: &PlaneData) -> (r: Modifier)
        ensures
            self.resolves_to(pd.aabb_spec(), pd.loc[0], pd.loc[2], r),
    {
        match self {
            ModifierData::Easing(data) => Modifier::Easing(*data),
            ModifierData::FlatEdges(data) => Modifier::FlatEdges(data.set(&pd.get_aabb())),
            ModifierData::FlatEdge(data) => Modifier::FlatEdge(data.set(&pd.get_aabb())),
            ModifierData::Noise(data) => Modifier::Noise(data.set()),
            ModifierData::TargetWanderNoise(data) => Modifier::TargetWanderNoise(
                data.set(&pd.get_aabb(), &pd.loc),
            ),
            ModifierData::SmoothEdge(data) => Modifier::SmoothEdge(data.set()),
        }
    }

    /// Tells whether the description is well formed.
    pub fn is_consistent(&self) -> (r: bool)
        ensures
            r == self.wf(),
    {
        match self {
            ModifierData::FlatEdges(data) => {
                let mut i: usize = 0;
                while i < data.regions.len()
                    invariant
                        self is FlatEdges,
                        self->FlatEdges_0 == *data,
                        i <= data.regions@.len(),
                        forall|j: int| 0 <= j < i ==> (#[trigger] data.regions@[j]).wf(),
                    decreases data.regions@.len() - i,
                {
                    if !data.regions[i].is_consistent() {
                        assert(!data.regions@[i as int].wf());
                        return false;
                    }
                    i = i + 1;
                }
                true
            },
            ModifierData::FlatEdge(data) => data.region.is_consistent(),
            ModifierData::TargetWanderNoise(data) => data.reach >= 0,
            _ => true,
        }
    }
}

impl Modifier {
    /// The height that the stage gives a vertex at `(x, z)` with the
    /// height `height`, in a plane with the origin `(origin_x, origin_z)`.
    pub open spec fn point_spec(self, x: int, height: int, z: int, origin_x: int, origin_z: int) -> int {
        match self {
            Modifier::Easing(data) => data.easing.apply_spec(height),
            Modifier::FlatEdges(data) => data.apply_spec(x, height, z),
            Modifier::FlatEdge(data) => data.apply_spec(x, height, z),
            Modifier::Noise(data) => data.apply_spec(x, height, z, origin_x, origin_z),
            Modifier::TargetWanderNoise(data) => data.apply_spec(x, height, z),
            Modifier::SmoothEdge(_) => height,
        }
    }

    /// The height that the stage gives a vertex at `(x, z)` with the
    /// height `height` once every stage has given its height, with `edges`
    /// as the boundaries of all stages. Only the smoothing stage changes
    /// any.
    pub open spec fn area_spec(self, edges: Seq<EdgeLine>, x: int, height: int, z: int) -> int {
        match self {
            Modifier::SmoothEdge(data) => match smoothed_height_spec(
                edges,
                data.radius as int,
                data.easing,
                x,
                height,
                z,
            ) {
                Some(h) => h,
                None => height,
            },
            _ => height,
        }
    }

    /// The boundaries that the stage leaves in a plane with the bounds
    /// `plane`.
    pub open spec fn inner_edges_spec(self, plane: AABB) -> Seq<EdgeLine> {
        match self {
            Modifier::FlatEdges(data) => edges_of_all(data.aabbs.items@, plane, data.height),
            Modifier::FlatEdge(data) => data.aabbs.edges_spec(plane, data.height),
            Modifier::TargetWanderNoise(data) => data.region.edges_spec(plane, 0),
            _ => Seq::empty(),
        }
    }

    /// The height that the stage gives the vertex at `pos` of a plane
    /// whose origin is `loc`.
    pub fn apply_point(&self, pos: &[i64; 3], loc: &[i64; 3]) -> (r: i64)
        ensures
            r == self.point_spec(pos[0] as int, pos[1] as int, pos[2] as int, loc[0] as int, loc[2] as int),
    {
        match self {
            Modifier::Easing(data) => data.easing.apply(pos[1]),
            Modifier::FlatEdges(data) => data.apply(pos),
            Modifier::FlatEdge(data) => data.apply(pos),
            Modifier::Noise(data) => data.apply(pos, loc),
            Modifier::TargetWanderNoise(data) => data.apply(pos),
            Modifier::SmoothEdge(_data) => pos[1],
        }
    }

    /// Whether `after` is this stage once its area pass has run with
    /// `edges`: a smoothing stage has taken the boundaries, every other
    /// stage is as it was.
    pub open spec fn after_area(self, edges: Seq<EdgeLine>, after: Modifier) -> bool {
        match self {
            Modifier::SmoothEdge(data) => {
                &&& after is SmoothEdge
                &&& after->SmoothEdge_0.radius == data.radius
                &&& after->SmoothEdge_0.easing == data.easing
                &&& after->SmoothEdge_0.edges@ == edges
            },
            _ => after == self,
        }
    }

    /// Runs the stage's area pass over the vertices `v_pos`, with `edges`
    /// as the boundaries of all stages. Every vertex keeps its place; its
    /// height changes only where the stage says so.
    pub fn apply_area(&mut self, v_pos: &mut Vec<[i64; 3]>, edges: &Vec<EdgeLine>)
        ensures
            old(self).after_area(edges@, *final(self)),
            final(v_pos)@.len() == old(v_pos)@.len(),
            forall|i: int|
                0 <= i < old(v_pos)@.len() ==> {
                    &&& (#[trigger] final(v_pos)@[i])[0] == old(v_pos)@[i][0]
                    &&& final(v_pos)@[i][2] == old(v_pos)@[i][2]
                    &&& final(v_pos)@[i][1] == old(self).area_spec(
                        edges@,
                        old(v_pos)@[i][0] as int,
                        old(v_pos)@[i][1] as int,
                        old(v_pos)@[i][2] as int,
                    )
                },
    {
        match self {
            Modifier::SmoothEdge(data) => {
                data.update(edges);
                let index_heights = data.apply(v_pos);
                let pairs = index_heights.pairs();
                let ghost before = v_pos@;
                let count: usize = v_pos.len();
                proof {
                    assert(data.radius == old(self)->SmoothEdge_0.radius);
                    assert(data.easing == old(self)->SmoothEdge_0.easing);
                    assert forall|j: int| 0 <= j < pairs@.len() implies (#[trigger] pairs@[j]).0
                        < before.len() by {
                        assert(index_heights@.contains_pair(pairs@[j].0, pairs@[j].1));
                    }
                }
                let mut n: usize = 0;
                while n < pairs.len()
                    invariant
                        n <= pairs@.len(),
                        v_pos@.len() == before.len(),
                        lists_entries(pairs@, index_heights@),
                        index_heights@ == data.overrides_spec(before, before.len() as int),
                        forall|j: int| 0 <= j < pairs@.len() ==> (#[trigger] pairs@[j]).0 < before.len(),
                        forall|j: int| 0 <= j < n ==> v_pos@[(#[trigger] pairs@[j]).0 as int][1] == pairs@[j].1,
                        forall|i: int|
                            0 <= i < before.len() ==> {
                                &&& (#[trigger] v_pos@[i])[0] == before[i][0]
                                &&& v_pos@[i][2] == before[i][2]
                            },
                        forall|i: int|
                            0 <= i < before.len() && (forall|j: int| 0 <= j < n ==> (#[trigger] pairs@[j]).0 != i)
                                ==> (#[trigger] v_pos@[i])[1] == before[i][1],
                    decreases pairs@.len() - n,
                {
                    let index: usize = pairs[n].0;
                    let height: i64 = pairs[n].1;
                    proof {
                        assert(index_heights@.contains_pair(pairs@[n as int].0, pairs@[n as int].1));
                        assert(index_heights@.contains_key(index));
                    }
                    let p: [i64; 3] = v_pos[index];
                    v_pos.set(index, [p[0], height, p[2]]);
                    proof {
                        assert forall|i: int|
                            0 <= i < before.len() && (forall|j: int| 0 <= j < n + 1 ==> (#[trigger] pairs@[j]).0 != i)
                                implies (#[trigger] v_pos@[i])[1] == before[i][1] by {
                            assert(pairs@[n as int].0 != i);
                        }
                    }
                    n = n + 1;
                }
                proof {
                    assert forall|i: int| 0 <= i < before.len() implies (#[trigger] v_pos@[i])[1]
                        == old(self).area_spec(
                        edges@,
                        before[i][0] as int,
                        before[i][1] as int,
                        before[i][2] as int,
                    ) by {
                        assert(before.len() == count);
                        let k: usize = i as usize;
                        if index_heights@.contains_key(k) {
                            let j = choose|j: int| 0 <= j < pairs@.len() && pairs@[j].0 == k;
                            assert(index_heights@.contains_pair(pairs@[j].0, pairs@[j].1));
                        } else {
                            assert forall|j: int| 0 <= j < pairs@.len() implies (#[trigger] pairs@[j]).0
                                != i by {
                                assert(index_heights@.contains_pair(pairs@[j].0, pairs@[j].1));
                            }
                        }
                    }
                }
            },
            Modifier::Easing(_data) => {},
            Modifier::FlatEdges(_data) => {},
            Modifier::FlatEdge(_data) => {},
            Modifier::Noise(_data) => {},
            Modifier::TargetWanderNoise(_data) => {},
        }
    }

    /// The boundaries that the stage leaves in a plane with the bounds
    /// `plane`. They lie within those bounds.
    pub fn get_inner_edges(&self, plane: &AABB) -> (r: Vec<EdgeLine>)
        ensures
            r@ == self.inner_edges_spec(*plane),
            forall|i: int| 0 <= i < r@.len() ==> (#[trigger] r@[i]).wf() && r@[i].within(*plane),
    {
        match self {
            Modifier::FlatEdges(data) => data.to_edges(plane),
            Modifier::FlatEdge(data) => data.to_edges(plane),
            Modifier::TargetWanderNoise(data) => data.to_edges(plane),
            Modifier::Easing(_data) => Vec::new(),
            Modifier::Noise(_data) => Vec::new(),
            Modifier::SmoothEdge(_data) => Vec::new(),
        }
    }
}

/// Descriptions that say the same describe stages that do the same.
pub proof fn lemma_same_stage_does_the_same(a: ModifierData, b: ModifierData, plane: AABB, origin_x: i64, origin_z: i64)
    requires
        a.same_as(b),
    ensures
        forall|x: int, height: int, z: int|
            #![trigger a.point_spec(plane, origin_x, origin_z, x, height, z)]
            a.point_spec(plane, origin_x, origin_z, x, height, z) == b.point_spec(
                plane,
                origin_x,
                origin_z,
                x,
                height,
                z,
            ),
        forall|edges: Seq<EdgeLine>, x: int, height: int, z: int|
            #![trigger a.area_spec(edges, x, height, z)]
            a.area_spec(edges, x, height, z) == b.area_spec(edges, x, height, z),
        a.inner_edges_spec(plane, origin_x, origin_z) == b.inner_edges_spec(plane, origin_x, origin_z),
{
}

/// A stage bound to a plane does what its description says of that plane.
pub proof fn lemma_resolved_agrees(data: ModifierData, plane: AABB, origin_x: i64, origin_z: i64, stage: Modifier)
    requires
        data.resolves_to(plane, origin_x, origin_z, stage),
    ensures
        forall|x: int, height: int, z: int|
            #![trigger stage.point_spec(x, height, z, origin_x as int, origin_z as int)]
            stage.point_spec(x, height, z, origin_x as int, origin_z as int) == data.point_spec(
                plane,
                origin_x,
                origin_z,
                x,
                height,
                z,
            ),
        forall|edges: Seq<EdgeLine>, x: int, height: int, z: int|
            #![trigger stage.area_spec(edges, x, height, z)]
            stage.area_spec(edges, x, height, z) == data.area_spec(edges, x, height, z),
        stage.inner_edges_spec(plane) == data.inner_edges_spec(plane, origin_x, origin_z),
{
}

} // verus!
