//! Noise that gathers around a target.

use vstd::prelude::*;
use crate::geometry::{AABB, EdgeLine, max_spec};
use crate::noise::{Noise, NoiseData};
use crate::scalar::{SCALE, abs_spec, lemma_share_bound, lerp, lerp_spec, product, product_spec,
    ratio, ratio_spec, saturate, saturate_i128};

verus! {

/// The description of a noise stage that gathers around a target. The
/// target is given by fractions of the plane's extents, the reach in steps.
#[derive(Debug, Clone, Copy, PartialEq, Eq, Structural)]
pub struct TargetWanderNoiseData {
    pub noise: NoiseData,
    pub target_x: i64,
    pub target_z: i64,
    pub reach: i64,
}

/// A noise stage that gathers around a target of its plane: full at the
/// target, fading to nothing at the border of the square that reaches
/// `reach` from the target on each side.
#[derive(Debug, Clone, Copy, PartialEq, Eq, Structural)]
pub struct TargetWanderNoise {
    pub noise: Noise,
    pub origin_x: i64,
    pub origin_z: i64,
    pub target_x: i64,
    pub target_z: i64,
    pub reach: i64,
    pub region: AABB,
}

impl TargetWanderNoiseData {
    /// The stage that this description stands for in a plane with the
    /// bounds `plane` and the origin `(origin_x, origin_z)`.
    pub open spec fn set_spec(self, plane: AABB, origin_x: i64, origin_z: i64) -> TargetWanderNoise {
        let tx = lerp_spec(plane.min_x as int, plane.max_x as int, self.target_x as int);
        let tz = lerp_spec(plane.min_z as int, plane.max_z as int, self.target_z as int);
        TargetWanderNoise {
            noise: self.noise.set_spec(),
            origin_x,
            origin_z,
            target_x: tx as i64,
            target_z: tz as i64,
            reach: self.reach,
            region: AABB {
                min_x: saturate(tx - self.reach) as i64,
                max_x: saturate(tx + self.reach) as i64,
                min_z: saturate(tz - self.reach) as i64,
                max_z: saturate(tz + self.reach) as i64,
            },
        }
    }

    /// Makes the stage that this description stands for in a plane with
    /// the bounds `plane` and the origin `loc`.
    pub fn set(&self, plane: &AABB, loc: &[i64; 3]) -> (r: TargetWanderNoise)
        ensures
            r == self.set_spec(*plane, loc[0], loc[2]),
            self.reach >= 0 ==> r.region.wf(),
    {
        let tx: i64 = lerp(plane.min_x, plane.max_x, self.target_x);
        let tz: i64 = lerp(plane.min_z, plane.max_z, self.target_z);
        TargetWanderNoise {
            noise: self.noise.set(),
            origin_x: loc[0],
            origin_z: loc[2],
            target_x: tx,
            target_z: tz,
            reach: self.reach,
            region: AABB {
                min_x: saturate_i128((tx as i128) - (self.reach as i128)),
                max_x: saturate_i128((tx as i128) + (self.reach as i128)),
                min_z: saturate_i128((tz as i128) - (self.reach as i128)),
                max_z: saturate_i128((tz as i128) + (self.reach as i128)),
            },
        }
    }
}

impl TargetWanderNoise {
    /// How far `(x, z)` lies from the target: the greater of the distances
    /// along the two axes.
    pub open spec fn distance_spec(self, x: int, z: int) -> int {
        max_spec(abs_spec(x - self.target_x), abs_spec(z - self.target_z))
    }

    /// The share of the noise that reaches `(x, z)`: one at the target,
    /// less with the distance, nothing from the reach on.
    pub open spec fn weight_spec(self, x: int, z: int) -> int {
        if self.reach > 0 && self.distance_spec(x, z) < self.reach {
            SCALE - ratio_spec(self.distance_spec(x, z), self.reach as int)
        } else {
            0
        }
    }

    /// The height of a vertex at `(x, z)` that had the height `height`.
    pub open spec fn apply_spec(self, x: int, height: int, z: int) -> int {
        saturate(
            height + product_spec(
                self.weight_spec(x, z),
                self.noise.sample_spec(saturate(x + self.origin_x), saturate(z + self.origin_z)),
            ),
        )
    }

    /// The share of the noise that reaches `(x, z)`.
    pub fn weight(&self, x: i64, z: i64) -> (r: i64)
        ensures
            r == self.weight_spec(x as int, z as int),
            0 <= r <= SCALE,
    {
        let dx: i128 = (x as i128) - (self.target_x as i128);
        let dz: i128 = (z as i128) - (self.target_z as i128);
        let ax: i128 = if dx < 0 { -dx } else { dx };
        let az: i128 = if dz < 0 { -dz } else { dz };
        let d: i128 = if ax >= az { ax } else { az };
        if self.reach > 0 && d < self.reach as i128 {
            proof {
                lemma_share_bound(SCALE as int, d as int, self.reach as int);
            }
            SCALE - ratio(d as i64, self.reach)
        } else {
            0
        }
    }

    /// The height that the stage gives the vertex at `pos`.
    pub fn apply(&self, pos: &[i64; 3]) -> (r: i64)
        ensures
            r == self.apply_spec(pos[0] as int, pos[1] as int, pos[2] as int),
    {
        let w: i64 = self.weight(pos[0], pos[2]);
        let x: i64 = saturate_i128((pos[0] as i128) + (self.origin_x as i128));
        let z: i64 = saturate_i128((pos[2] as i128) + (self.origin_z as i128));
        let n: i64 = self.noise.sample(x, z);
        saturate_i128((pos[1] as i128) + (product(w, n) as i128))
    }

    /// The boundary that the square around the target leaves in a plane
    /// with the bounds `plane`.
    pub fn to_edges(&self, plane: &AABB) -> (r: Vec<EdgeLine>)
        ensures
            r@ == self.region.edges_spec(*plane, 0),
            forall|i: int| 0 <= i < r@.len() ==> (#[trigger] r@[i]).wf() && r@[i].within(*plane),
    {
        self.region.to_edges(plane)
    }
}

/// A vertex outside the square around the target keeps its height, where
/// the stage was made from its description.
pub proof fn wander_leaves_outside(
    data: TargetWanderNoiseData,
    plane: AABB,
    origin_x: i64,
    origin_z: i64,
    x: int,
    height: int,
    z: int,
)
    requires
        i64::MIN <= x <= i64::MAX,
        i64::MIN <= height <= i64::MAX,
        i64::MIN <= z <= i64::MAX,
        !data.set_spec(plane, origin_x, origin_z).region.contains_spec(x, z),
    ensures
        data.set_spec(plane, origin_x, origin_z).apply_spec(x, height, z) == height,
{
    let stage = data.set_spec(plane, origin_x, origin_z);
    assert(stage.weight_spec(x, z) == 0);
    let n = stage.noise.sample_spec(saturate(x + stage.origin_x), saturate(z + stage.origin_z));
    assert(0 * n == 0) by (nonlinear_arith);
}

} // verus!
