//! Rectangles in the plane and the boundary segments they leave in it.

use vstd::prelude::*;
use crate::scalar::{abs_spec, clamp, clamp_spec, lemma_product_bound, lemma_square_order};

verus! {

/// An axis-aligned rectangle in the XZ plane of a terrain plane. Its border
/// belongs to it.
#[derive(Debug, Clone, Copy, PartialEq, Eq, Structural)]
pub struct AABB {
    pub min_x: i64,
    pub max_x: i64,
    pub min_z: i64,
    pub max_z: i64,
}

/// The direction that leads from a boundary segment into the rectangle it
/// bounds.
#[derive(Debug, Clone, Copy, PartialEq, Eq, Structural)]
pub enum Inward {
    PosX,
    NegX,
    PosZ,
    NegZ,
}

/// A boundary segment of a rectangle, parallel to one of the axes, with the
/// height that the terrain has along it.
#[derive(Debug, Clone, Copy, PartialEq, Eq, Structural)]
pub struct EdgeLine {
    pub x0: i64,
    pub z0: i64,
    pub x1: i64,
    pub z1: i64,
    pub inward: Inward,
    pub height: i64,
}

/// A list of rectangles.
#[derive(Debug, Clone)]
pub struct AABBs {
    pub items: Vec<AABB>,
}

/// The greater of two values.
pub open spec fn max_spec(a: int, b: int) -> int {
    if a >= b {
        a
    } else {
        b
    }
}

/// The lesser of two values.
pub open spec fn min_spec(a: int, b: int) -> int {
    if a <= b {
        a
    } else {
        b
    }
}

/// Whether some rectangle of `items` holds the point.
pub open spec fn any_contains(items: Seq<AABB>, x: int, z: int) -> bool {
    exists|i: int| 0 <= i < items.len() && (#[trigger] items[i]).contains_spec(x, z)
}

/// The boundary segments that each rectangle of `items` leaves in `outer`,
/// one rectangle after the other.
pub open spec fn edges_of_all(items: Seq<AABB>, outer: AABB, height: i64) -> Seq<EdgeLine>
    decreases items.len(),
{
    if items.len() == 0 {
        Seq::empty()
    } else {
        edges_of_all(items.drop_last(), outer, height) + items.last().edges_spec(outer, height)
    }
}

impl AABB {
    /// Whether the lower bounds do not pass the upper ones.
    pub open spec fn wf(self) -> bool {
        self.min_x <= self.max_x && self.min_z <= self.max_z
    }

    /// Whether the rectangle has an inside.
    pub open spec fn has_area(self) -> bool {
        self.min_x < self.max_x && self.min_z < self.max_z
    }

    /// Whether the point lies in the rectangle or on its border.
    pub open spec fn contains_spec(self, x: int, z: int) -> bool {
        self.min_x <= x <= self.max_x && self.min_z <= z <= self.max_z
    }

    /// Whether the point lies in the rectangle and off its border.
    pub open spec fn strictly_contains(self, x: int, z: int) -> bool {
        self.min_x < x < self.max_x && self.min_z < z < self.max_z
    }

    /// The part of this rectangle that lies in `outer`. It is not well
    /// formed where the two do not meet.
    pub open spec fn overlap_spec(self, outer: AABB) -> AABB {
        AABB {
            min_x: max_spec(self.min_x as int, outer.min_x as int) as i64,
            max_x: min_spec(self.max_x as int, outer.max_x as int) as i64,
            min_z: max_spec(self.min_z as int, outer.min_z as int) as i64,
            max_z: min_spec(self.max_z as int, outer.max_z as int) as i64,
        }
    }

    /// The four sides of a rectangle: the one at its least x, the one at
    /// its greatest x, the one at its least z, the one at its greatest z.
    pub open spec fn sides_spec(self, height: i64) -> Seq<EdgeLine> {
        seq![
            EdgeLine {
                x0: self.min_x,
                z0: self.min_z,
                x1: self.min_x,
                z1: self.max_z,
                inward: Inward::PosX,
                height,
            },
            EdgeLine {
                x0: self.max_x,
                z0: self.min_z,
                x1: self.max_x,
                z1: self.max_z,
                inward: Inward::NegX,
                height,
            },
            EdgeLine {
                x0: self.min_x,
                z0: self.min_z,
                x1: self.max_x,
                z1: self.min_z,
                inward: Inward::PosZ,
                height,
            },
            EdgeLine {
                x0: self.min_x,
                z0: self.max_z,
                x1: self.max_x,
                z1: self.max_z,
                inward: Inward::NegZ,
                height,
            },
        ]
    }

    /// The boundary segments that this rectangle leaves in `outer`: the
    /// sides of the part of it that lies in `outer`, or nothing where that
    /// part has no inside.
    pub open spec fn edges_spec(self, outer: AABB, height: i64) -> Seq<EdgeLine> {
        if self.overlap_spec(outer).has_area() {
            self.overlap_spec(outer).sides_spec(height)
        } else {
            Seq::empty()
        }
    }

    /// Tells whether the point lies in the rectangle or on its border.
    pub fn contains(&self, x: i64, z: i64) -> (r: bool)
        ensures
            r == self.contains_spec(x as int, z as int),
    {
        self.min_x <= x && x <= self.max_x && self.min_z <= z && z <= self.max_z
    }

    /// The part of this rectangle that lies in `outer`.
    pub fn overlap(&self, outer: &AABB) -> (r: AABB)
        ensures
            r == self.overlap_spec(*outer),
    {
        AABB {
            min_x: if self.min_x >= outer.min_x { self.min_x } else { outer.min_x },
            max_x: if self.max_x <= outer.max_x { self.max_x } else { outer.max_x },
            min_z: if self.min_z >= outer.min_z { self.min_z } else { outer.min_z },
            max_z: if self.max_z <= outer.max_z { self.max_z } else { outer.max_z },
        }
    }

    /// The boundary segments that this rectangle leaves in `outer`, with
    /// `height` as the height of the terrain along them.
    pub fn to_edges_at(&self, outer: &AABB, height: i64) -> (r: Vec<EdgeLine>)
        ensures
            r@ == self.edges_spec(*outer, height),
            forall|i: int| 0 <= i < r@.len() ==> (#[trigger] r@[i]).wf() && r@[i].within(*outer),
    {
        let part = self.overlap(outer);
        let mut edges: Vec<EdgeLine> = Vec::new();
        if part.min_x < part.max_x && part.min_z < part.max_z {
            edges.push(
                EdgeLine {
                    x0: part.min_x,
                    z0: part.min_z,
                    x1: part.min_x,
                    z1: part.max_z,
                    inward: Inward::PosX,
                    height,
                },
            );
            edges.push(
                EdgeLine {
                    x0: part.max_x,
                    z0: part.min_z,
                    x1: part.max_x,
                    z1: part.max_z,
                    inward: Inward::NegX,
                    height,
                },
            );
            edges.push(
                EdgeLine {
                    x0: part.min_x,
                    z0: part.min_z,
                    x1: part.max_x,
                    z1: part.min_z,
                    inward: Inward::PosZ,
                    height,
                },
            );
            edges.push(
                EdgeLine {
                    x0: part.min_x,
                    z0: part.max_z,
                    x1: part.max_x,
                    z1: part.max_z,
                    inward: Inward::NegZ,
                    height,
                },
            );
        }
        assert(edges@ =~= self.edges_spec(*outer, height));
        edges
    }

    /// The boundary segments that this rectangle leaves in `outer`.
    pub fn to_edges(&self, outer: &AABB) -> (r: Vec<EdgeLine>)
        ensures
            r@ == self.edges_spec(*outer, 0),
            forall|i: int| 0 <= i < r@.len() ==> (#[trigger] r@[i]).wf() && r@[i].within(*outer),
    {
        self.to_edges_at(outer, 0)
    }
}

impl AABBs {
    /// Whether some rectangle of the list holds the point.
    pub open spec fn contains_spec(self, x: int, z: int) -> bool {
        any_contains(self.items@, x, z)
    }

    /// Tells whether some rectangle of the list holds the point.
    pub fn contains(&self, x: i64, z: i64) -> (r: bool)
        ensures
            r == self.contains_spec(x as int, z as int),
    {
        let mut i: usize = 0;
        while i < self.items.len()
            invariant
                i <= self.items@.len(),
                forall|j: int| 0 <= j < i ==> !(#[trigger] self.items@[j]).contains_spec(x as int, z as int),
            decreases self.items@.len() - i,
        {
            if self.items[i].contains(x, z) {
                return true;
            }
            i = i + 1;
        }
        false
    }

    /// The boundary segments that the rectangles leave in `outer`, one
    /// rectangle after the other, with `height` as the height of the
    /// terrain along them.
    pub fn to_edges_at(&self, outer: &AABB, height: i64) -> (r: Vec<EdgeLine>)
        ensures
            r@ == edges_of_all(self.items@, *outer, height),
            forall|i: int| 0 <= i < r@.len() ==> (#[trigger] r@[i]).wf() && r@[i].within(*outer),
    {
        let mut edges: Vec<EdgeLine> = Vec::new();
        let mut i: usize = 0;
        while i < self.items.len()
            invariant
                i <= self.items@.len(),
                edges@ == edges_of_all(self.items@.take(i as int), *outer, height),
                forall|j: int| 0 <= j < edges@.len() ==> (#[trigger] edges@[j]).wf() && edges@[j].within(*outer),
            decreases self.items@.len() - i,
        {
            let mut sides = self.items[i].to_edges_at(outer, height);
            proof {
                assert(self.items@.take(i + 1).drop_last() =~= self.items@.take(i as int));
                assert(self.items@.take(i + 1).last() == self.items@[i as int]);
            }
            edges.append(&mut sides);
            i = i + 1;
        }
        proof {
            assert(self.items@.take(i as int) =~= self.items@);
        }
        edges
    }

    /// The boundary segments that the rectangles leave in `outer`, one
    /// rectangle after the other.
    pub fn to_edges(&self, outer: &AABB) -> (r: Vec<EdgeLine>)
        ensures
            r@ == edges_of_all(self.items@, *outer, 0),
            forall|i: int| 0 <= i < r@.len() ==> (#[trigger] r@[i]).wf() && r@[i].within(*outer),
    {
        self.to_edges_at(outer, 0)
    }
}

impl EdgeLine {
    /// Whether the segment runs along one axis, from its lesser end to its
    /// greater.
    pub open spec fn wf(self) -> bool {
        &&& self.x0 <= self.x1
        &&& self.z0 <= self.z1
        &&& (self.x0 == self.x1 || self.z0 == self.z1)
    }

    /// Whether both ends of the segment lie in `outer`.
    pub open spec fn within(self, outer: AABB) -> bool {
        outer.contains_spec(self.x0 as int, self.z0 as int) && outer.contains_spec(
            self.x1 as int,
            self.z1 as int,
        )
    }

    /// The square of the distance from the point to the nearest point of
    /// the segment.
    pub open spec fn distance_sq_spec(self, x: int, z: int) -> int {
        let dx = x - clamp_spec(x, self.x0 as int, self.x1 as int);
        let dz = z - clamp_spec(z, self.z0 as int, self.z1 as int);
        dx * dx + dz * dz
    }

    /// A squared distance is not negative.
    pub proof fn lemma_distance_sq_not_negative(self, x: int, z: int)
        ensures
            self.distance_sq_spec(x, z) >= 0,
    {
        let dx = x - clamp_spec(x, self.x0 as int, self.x1 as int);
        let dz = z - clamp_spec(z, self.z0 as int, self.z1 as int);
        assert(dx * dx >= 0 && dz * dz >= 0) by (nonlinear_arith);
    }

    /// Whether the point lies nearer to the segment than `radius`.
    pub open spec fn reaches(self, x: int, z: int, radius: int) -> bool {
        radius > 0 && self.distance_sq_spec(x, z) < radius * radius
    }

    /// The square of the distance from the point to the segment, where the
    /// point lies nearer to it than `radius`.
    pub fn distance_sq_within(&self, x: i64, z: i64, radius: i64) -> (r: Option<u128>)
        ensures
            r.is_some() == self.reaches(x as int, z as int, radius as int),
            r.is_some() ==> r.unwrap() == self.distance_sq_spec(x as int, z as int),
    {
        if radius <= 0 {
            return None;
        }
        let dx: i128 = (x as i128) - (clamp(x, self.x0, self.x1) as i128);
        let dz: i128 = (z as i128) - (clamp(z, self.z0, self.z1) as i128);
        let ax: i128 = if dx < 0 { -dx } else { dx };
        let az: i128 = if dz < 0 { -dz } else { dz };
        let reach: i128 = radius as i128;
        proof {
            lemma_square_order(ax as int, reach as int);
            lemma_square_order(az as int, reach as int);
            lemma_square_of_abs(dx as int);
            lemma_square_of_abs(dz as int);
            lemma_product_bound(reach as int, reach as int, 0x8000_0000_0000_0000, 0x8000_0000_0000_0000);
        }
        if ax >= reach || az >= reach {
            return None;
        }
        let d2: i128 = ax * ax + az * az;
        if d2 < reach * reach {
            Some(d2 as u128)
        } else {
            None
        }
    }
}

/// A value and its magnitude have the same square.
pub proof fn lemma_square_of_abs(a: int)
    ensures
        abs_spec(a) * abs_spec(a) == a * a,
{
    assert((-a) * (-a) == a * a) by (nonlinear_arith);
}

} // verus!
