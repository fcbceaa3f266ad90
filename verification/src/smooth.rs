//! Smoothing of the terrain towards the boundaries that other stages leave.

use vstd::prelude::*;
use crate::easings::{Easings, easing_keeps_unit_interval};
use crate::geometry::EdgeLine;
use crate::overrides::HeightOverrides;
use crate::scalar::{SCALE, is_sqrt, isqrt, isqrt_spec, lemma_lerp_between, lemma_root_exists,
    lemma_share_bound, lerp, lerp_spec, ratio, ratio_spec};

verus! {

/// The description of a smoothing stage.
#[derive(Debug, Clone, Copy, PartialEq, Eq, Structural)]
pub struct SmoothEdgeData {
    /// The distance from a boundary within which heights are blended.
    pub radius: i64,
    /// The curve that turns nearness into the weight of the boundary.
    pub easing: Easings,
}

/// A smoothing stage with the boundaries it smooths towards.
#[derive(Debug, Clone)]
pub struct SmoothEdge {
    pub radius: i64,
    pub easing: Easings,
    pub edges: Vec<EdgeLine>,
}

/// The index of the boundary that is nearest to `(x, z)` among those that
/// lie nearer than `radius`, the first of them where several are equally
/// near; `-1` where none lies that near.
pub open spec fn nearest_spec(edges: Seq<EdgeLine>, x: int, z: int, radius: int) -> int
    decreases edges.len(),
{
    if edges.len() == 0 {
        -1
    } else {
        let prev = nearest_spec(edges.drop_last(), x, z, radius);
        let last = edges.len() - 1;
        if edges[last].reaches(x, z, radius) && (prev < 0 || edges[last].distance_sq_spec(x, z)
            < edges[prev].distance_sq_spec(x, z)) {
            last
        } else {
            prev
        }
    }
}

/// The weight of a boundary whose squared distance is `d2`: the curve
/// applied to one minus the distance as a fraction of the radius.
pub open spec fn blend_weight_spec(easing: Easings, radius: int, d2: int) -> int {
    easing.apply_spec(SCALE - ratio_spec(isqrt_spec(d2), radius))
}

/// The new height of a vertex at `(x, z)` with the height `height`: a
/// blend of its height and that of the nearest of `edges`, or nothing
/// where none of them lies nearer than `radius`.
pub open spec fn smoothed_height_spec(
    edges: Seq<EdgeLine>,
    radius: int,
    easing: Easings,
    x: int,
    height: int,
    z: int,
) -> Option<int> {
    let n = nearest_spec(edges, x, z, radius);
    if n < 0 {
        None
    } else {
        Some(
            lerp_spec(
                height,
                edges[n].height as int,
                blend_weight_spec(easing, radius, edges[n].distance_sq_spec(x, z)),
            ),
        )
    }
}

impl SmoothEdgeData {
    /// A description with the given radius and the smooth step as its curve.
    pub fn new(radius: i64) -> (r: SmoothEdgeData)
        ensures
            r.radius == radius,
            r.easing == Easings::SmoothStep,
    {
        SmoothEdgeData { radius, easing: Easings::SmoothStep }
    }

    /// Makes the stage that this description stands for. It knows of no
    /// boundary yet.
    pub fn set(&self) -> (r: SmoothEdge)
        ensures
            r.radius == self.radius,
            r.easing == self.easing,
            r.edges@.len() == 0,
    {
        SmoothEdge { radius: self.radius, easing: self.easing, edges: Vec::new() }
    }
}

impl SmoothEdge {
    /// The weight of a boundary whose squared distance is `d2`.
    pub open spec fn weight_spec(self, d2: int) -> int {
        blend_weight_spec(self.easing, self.radius as int, d2)
    }

    /// The new height of a vertex at `(x, z)` with the height `height`, or
    /// nothing where no boundary lies nearer than the radius.
    pub open spec fn smoothed_spec(self, x: int, height: int, z: int) -> Option<int> {
        smoothed_height_spec(self.edges@, self.radius as int, self.easing, x, height, z)
    }

    /// The new height of the vertex `p`, if it gets one.
    pub open spec fn vertex_spec(self, p: [i64; 3]) -> Option<int> {
        self.smoothed_spec(p[0] as int, p[1] as int, p[2] as int)
    }

    /// The new heights of the first `n` vertices of `v`, for those that
    /// get one.
    pub open spec fn overrides_spec(self, v: Seq<[i64; 3]>, n: int) -> Map<usize, i64> {
        Map::new(
            |k: usize| k < n && k < v.len() && self.vertex_spec(v[k as int]).is_some(),
            |k: usize| self.vertex_spec(v[k as int]).unwrap() as i64,
        )
    }

    /// Takes `edges` as the boundaries to smooth towards.
    pub fn update(&mut self, edges: &Vec<EdgeLine>)
        ensures
            final(self).edges@ == edges@,
            final(self).radius == old(self).radius,
            final(self).easing == old(self).easing,
    {
        let mut copy: Vec<EdgeLine> = Vec::new();
        let mut i: usize = 0;
        while i < edges.len()
            invariant
                i <= edges@.len(),
                copy@ == edges@.take(i as int),
            decreases edges@.len() - i,
        {
            copy.push(edges[i]);
            proof {
                assert(copy@ =~= edges@.take(i + 1));
            }
            i = i + 1;
        }
        proof {
            assert(edges@.take(i as int) =~= edges@);
        }
        self.edges = copy;
    }

    /// The boundary nearest to `(x, z)` among those nearer than the radius,
    /// with the square of its distance.
    pub fn nearest(&self, x: i64, z: i64) -> (r: Option<(usize, u128)>)
        ensures
            r.is_some() == (nearest_spec(self.edges@, x as int, z as int, self.radius as int) >= 0),
            r.is_some() ==> r.unwrap().0 == nearest_spec(self.edges@, x as int, z as int, self.radius as int),
            r.is_some() ==> r.unwrap().0 < self.edges@.len(),
            r.is_some() ==> r.unwrap().1 == self.edges@[r.unwrap().0 as int].distance_sq_spec(x as int, z as int),
            r.is_some() ==> self.edges@[r.unwrap().0 as int].reaches(x as int, z as int, self.radius as int),
    {
        let mut best: Option<(usize, u128)> = None;
        let mut i: usize = 0;
        while i < self.edges.len()
            invariant
                i <= self.edges@.len(),
                best.is_some() == (nearest_spec(self.edges@.take(i as int), x as int, z as int, self.radius as int) >= 0),
                best.is_some() ==> best.unwrap().0 == nearest_spec(
                    self.edges@.take(i as int),
                    x as int,
                    z as int,
                    self.radius as int,
                ),
                best.is_some() ==> best.unwrap().0 < i,
                best.is_some() ==> best.unwrap().1 == self.edges@[best.unwrap().0 as int].distance_sq_spec(
                    x as int,
                    z as int,
                ),
                best.is_some() ==> self.edges@[best.unwrap().0 as int].reaches(
                    x as int,
                    z as int,
                    self.radius as int,
                ),
            decreases self.edges@.len() - i,
        {
            proof {
                assert(self.edges@.take(i + 1).drop_last() =~= self.edges@.take(i as int));
                assert(self.edges@.take(i + 1).last() == self.edges@[i as int]);
                if best.is_some() {
                    assert(self.edges@.take(i + 1)[best.unwrap().0 as int] == self.edges@[best.unwrap().0 as int]);
                }
            }
            match self.edges[i].distance_sq_within(x, z, self.radius) {
                Some(d2) => {
                    let better: bool = match best {
                        Some((_, least)) => d2 < least,
                        None => true,
                    };
                    if better {
                        best = Some((i, d2));
                    }
                },
                None => {},
            }
            i = i + 1;
        }
        proof {
            assert(self.edges@.take(i as int) =~= self.edges@);
        }
        best
    }

    /// The new height of the vertex at `pos`, if a boundary lies nearer to
    /// it than the radius.
    pub fn smooth_vertex(&self, pos: &[i64; 3]) -> (r: Option<i64>)
        ensures
            r.is_some() == self.smoothed_spec(pos[0] as int, pos[1] as int, pos[2] as int).is_some(),
            r.is_some() ==> r.unwrap() == self.smoothed_spec(
                pos[0] as int,
                pos[1] as int,
                pos[2] as int,
            ).unwrap(),
    {
        match self.nearest(pos[0], pos[2]) {
            None => None,
            Some((n, d2)) => {
                let dist: u64 = isqrt(d2);
                proof {
                    lemma_root_below(d2 as int, dist as int, self.radius as int);
                    lemma_share_bound(SCALE as int, dist as int, self.radius as int);
                }
                let near: i64 = SCALE - ratio(dist as i64, self.radius);
                let weight: i64 = self.easing.apply(near);
                Some(lerp(pos[1], self.edges[n].height, weight))
            },
        }
    }

    /// The new heights of the vertices of `v_pos`, for those that get one.
    pub fn apply(&self, v_pos: &Vec<[i64; 3]>) -> (r: HeightOverrides)
        ensures
            r@ == self.overrides_spec(v_pos@, v_pos@.len() as int),
    {
        let mut found = HeightOverrides::empty();
        let mut i: usize = 0;
        proof {
            assert(found@ =~= self.overrides_spec(v_pos@, 0));
        }
        while i < v_pos.len()
            invariant
                i <= v_pos@.len(),
                found@ == self.overrides_spec(v_pos@, i as int),
            decreases v_pos@.len() - i,
        {
            match self.smooth_vertex(&v_pos[i]) {
                Some(height) => {
                    found.put(i, height);
                },
                None => {},
            }
            proof {
                assert(found@ =~= self.overrides_spec(v_pos@, i + 1));
            }
            i = i + 1;
        }
        found
    }
}

/// The root of a number below the square of `radius` lies below `radius`.
pub proof fn lemma_root_below(d2: int, root: int, radius: int)
    requires
        is_sqrt(d2, root),
        radius > 0,
        d2 < radius * radius,
    ensures
        0 <= root < radius,
{
    assert(root < radius) by (nonlinear_arith)
        requires
            0 <= root,
            root * root <= d2,
            d2 < radius * radius,
            radius > 0,
    ;
}

/// What the nearest boundary is: it lies nearer than the radius, no
/// boundary lies nearer than it, and those before it in the list lie
/// farther. Where there is none, no boundary lies nearer than the radius.
pub proof fn nearest_is_least(edges: Seq<EdgeLine>, x: int, z: int, radius: int)
    ensures
        -1 <= nearest_spec(edges, x, z, radius) < edges.len(),
        nearest_spec(edges, x, z, radius) >= 0 ==> {
            let n = nearest_spec(edges, x, z, radius);
            &&& edges[n].reaches(x, z, radius)
            &&& forall|j: int|
                0 <= j < edges.len() ==> edges[n].distance_sq_spec(x, z) <= (#[trigger] edges[j]).distance_sq_spec(x, z)
            &&& forall|j: int|
                0 <= j < n ==> edges[n].distance_sq_spec(x, z) < (#[trigger] edges[j]).distance_sq_spec(x, z)
        },
        nearest_spec(edges, x, z, radius) < 0 ==> forall|j: int|
            0 <= j < edges.len() ==> !(#[trigger] edges[j]).reaches(x, z, radius),
    decreases edges.len(),
{
    if edges.len() > 0 {
        let front = edges.drop_last();
        nearest_is_least(front, x, z, radius);
        let prev = nearest_spec(front, x, z, radius);
        let n = nearest_spec(edges, x, z, radius);
        let last = edges.len() - 1;
        assert forall|j: int| 0 <= j < front.len() implies front[j] == edges[j] by {}
        if n >= 0 {
            assert forall|j: int| 0 <= j < edges.len() implies edges[n].distance_sq_spec(x, z) <= (
            #[trigger] edges[j]).distance_sq_spec(x, z) by {
                if j < last {
                    assert(front[j] == edges[j]);
                    if prev < 0 {
                        assert(!front[j].reaches(x, z, radius));
                    }
                }
            }
            assert forall|j: int| 0 <= j < n implies edges[n].distance_sq_spec(x, z) < (
            #[trigger] edges[j]).distance_sq_spec(x, z) by {
                assert(front[j] == edges[j]);
                if prev < 0 {
                    assert(!front[j].reaches(x, z, radius));
                }
            }
        } else {
            assert forall|j: int| 0 <= j < edges.len() implies !(#[trigger] edges[j]).reaches(
                x,
                z,
                radius,
            ) by {
                if j < last {
                    assert(front[j] == edges[j]);
                }
            }
        }
    }
}

/// Smoothing is local. A vertex that no boundary comes nearer to than the
/// radius gets no new height. A vertex that gets one gets a height between
/// its own and that of its nearest boundary.
pub proof fn smooth_edge_locality(stage: SmoothEdge, x: int, height: int, z: int)
    requires
        i64::MIN <= height <= i64::MAX,
    ensures
        (forall|j: int| 0 <= j < stage.edges@.len() ==> !(#[trigger] stage.edges@[j]).reaches(x, z, stage.radius as int))
            <==> stage.smoothed_spec(x, height, z).is_none(),
        stage.smoothed_spec(x, height, z).is_some() ==> {
            let n = nearest_spec(stage.edges@, x, z, stage.radius as int);
            let h = stage.smoothed_spec(x, height, z).unwrap();
            &&& height <= stage.edges@[n].height ==> height <= h <= stage.edges@[n].height
            &&& stage.edges@[n].height <= height ==> stage.edges@[n].height <= h <= height
        },
{
    let radius = stage.radius as int;
    nearest_is_least(stage.edges@, x, z, radius);
    let n = nearest_spec(stage.edges@, x, z, radius);
    if n >= 0 {
        let d2 = stage.edges@[n].distance_sq_spec(x, z);
        stage.edges@[n].lemma_distance_sq_not_negative(x, z);
        lemma_root_exists(d2);
        let root = isqrt_spec(d2);
        lemma_root_below(d2, root, radius);
        lemma_share_bound(SCALE as int, root, radius);
        easing_keeps_unit_interval(stage.easing, SCALE - ratio_spec(root, radius));
        lemma_lerp_between(height, stage.edges@[n].height as int, stage.weight_spec(d2));
    }
}

/// A smoothing stage whose radius is not positive gives no vertex a new
/// height.
pub proof fn no_radius_smooths_nothing(edges: Seq<EdgeLine>, radius: int, easing: Easings, x: int, height: int, z: int)
    requires
        radius <= 0,
    ensures
        smoothed_height_spec(edges, radius, easing, x, height, z).is_none(),
{
    nearest_is_least(edges, x, z, radius);
    let n = nearest_spec(edges, x, z, radius);
    if n >= 0 {
        assert(edges[n].reaches(x, z, radius));
    }
}

} // verus!
