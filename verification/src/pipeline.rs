//! The passes of a rebuild, one after the other: every stage gives every
//! vertex its height, the boundaries of all stages are gathered, every
//! stage runs its area pass, and the finished heights are coloured.

use vstd::prelude::*;
use crate::colors::Colors;
use crate::geometry::{AABB, EdgeLine};
use crate::modifiers::{Modifier, ModifierData, lemma_resolved_agrees, lemma_same_stage_does_the_same};

verus! {

/// The least and the greatest height that the vertices of a mesh have
/// once every stage has given its height.
#[derive(Debug, Clone, Copy, PartialEq, Eq, Structural)]
pub struct HeightExtrema {
    pub min_height: i64,
    pub max_height: i64,
}

/// The height of a vertex at `(x, z)` with the height `height` once the
/// stages `mods` have given theirs, each to what the one before it left.
pub open spec fn point_thread_spec(
    mods: Seq<Modifier>,
    x: int,
    height: int,
    z: int,
    origin_x: int,
    origin_z: int,
) -> int
    decreases mods.len(),
{
    if mods.len() == 0 {
        height
    } else {
        mods.last().point_spec(
            x,
            point_thread_spec(mods.drop_last(), x, height, z, origin_x, origin_z),
            z,
            origin_x,
            origin_z,
        )
    }
}

/// The height of a vertex at `(x, z)` with the height `height` once the
/// stages `mods` have run their area passes, each on what the one before
/// it left.
pub open spec fn area_thread_spec(mods: Seq<Modifier>, edges: Seq<EdgeLine>, x: int, height: int, z: int) -> int
    decreases mods.len(),
{
    if mods.len() == 0 {
        height
    } else {
        mods.last().area_spec(edges, x, area_thread_spec(mods.drop_last(), edges, x, height, z), z)
    }
}

/// The boundaries that the stages `mods` leave in a plane with the bounds
/// `plane`, one stage after the other.
pub open spec fn all_edges_spec(mods: Seq<Modifier>, plane: AABB) -> Seq<EdgeLine>
    decreases mods.len(),
{
    if mods.len() == 0 {
        Seq::empty()
    } else {
        all_edges_spec(mods.drop_last(), plane) + mods.last().inner_edges_spec(plane)
    }
}

/// The heights of the vertices `v`.
pub open spec fn heights_of(v: Seq<[i64; 3]>) -> Seq<int> {
    Seq::new(v.len(), |i: int| v[i][1] as int)
}

/// Whether `extrema` are the least and the greatest of `heights`; of no
/// heights, the greatest scalar and the least.
pub open spec fn are_extrema(heights: Seq<int>, extrema: HeightExtrema) -> bool {
    &&& forall|i: int| 0 <= i < heights.len() ==> extrema.min_height <= (#[trigger] heights[i]) <= extrema.max_height
    &&& heights.len() > 0 ==> exists|i: int| 0 <= i < heights.len() && (#[trigger] heights[i]) == extrema.min_height
    &&& heights.len() > 0 ==> exists|i: int| 0 <= i < heights.len() && (#[trigger] heights[i]) == extrema.max_height
    &&& heights.len() == 0 ==> extrema.min_height == i64::MAX && extrema.max_height == i64::MIN
}

/// The height of a vertex at `(x, z)` with the height `height` once the
/// stages described by `stages` have given theirs, in a plane with the
/// bounds `plane` and the origin `(origin_x, origin_z)`.
pub open spec fn stages_point_spec(
    stages: Seq<ModifierData>,
    plane: AABB,
    origin_x: i64,
    origin_z: i64,
    x: int,
    height: int,
    z: int,
) -> int
    decreases stages.len(),
{
    if stages.len() == 0 {
        height
    } else {
        stages.last().point_spec(
            plane,
            origin_x,
            origin_z,
            x,
            stages_point_spec(stages.drop_last(), plane, origin_x, origin_z, x, height, z),
            z,
        )
    }
}

/// The height of a vertex at `(x, z)` with the height `height` once the
/// stages described by `stages` have run their area passes.
pub open spec fn stages_area_spec(stages: Seq<ModifierData>, edges: Seq<EdgeLine>, x: int, height: int, z: int) -> int
    decreases stages.len(),
{
    if stages.len() == 0 {
        height
    } else {
        stages.last().area_spec(edges, x, stages_area_spec(stages.drop_last(), edges, x, height, z), z)
    }
}

/// The boundaries that the stages described by `stages` leave in a plane,
/// one stage after the other.
pub open spec fn stages_edges_spec(stages: Seq<ModifierData>, plane: AABB, origin_x: i64, origin_z: i64) -> Seq<EdgeLine>
    decreases stages.len(),
{
    if stages.len() == 0 {
        Seq::empty()
    } else {
        stages_edges_spec(stages.drop_last(), plane, origin_x, origin_z) + stages.last().inner_edges_spec(
            plane,
            origin_x,
            origin_z,
        )
    }
}

/// Whether the two lists of descriptions say the same, stage by stage.
pub open spec fn stages_same(a: Seq<ModifierData>, b: Seq<ModifierData>) -> bool {
    &&& a.len() == b.len()
    &&& forall|j: int| 0 <= j < a.len() ==> (#[trigger] a[j]).same_as(b[j])
}

/// Lists of descriptions that say the same describe pipelines that do the
/// same.
pub proof fn lemma_same_stages_do_the_same(
    a: Seq<ModifierData>,
    b: Seq<ModifierData>,
    plane: AABB,
    origin_x: i64,
    origin_z: i64,
)
    requires
        stages_same(a, b),
    ensures
        forall|x: int, height: int, z: int|
            #![trigger stages_point_spec(a, plane, origin_x, origin_z, x, height, z)]
            stages_point_spec(a, plane, origin_x, origin_z, x, height, z) == stages_point_spec(
                b,
                plane,
                origin_x,
                origin_z,
                x,
                height,
                z,
            ),
        forall|edges: Seq<EdgeLine>, x: int, height: int, z: int|
            #![trigger stages_area_spec(a, edges, x, height, z)]
            stages_area_spec(a, edges, x, height, z) == stages_area_spec(b, edges, x, height, z),
        stages_edges_spec(a, plane, origin_x, origin_z) == stages_edges_spec(b, plane, origin_x, origin_z),
    decreases a.len(),
{
    if a.len() > 0 {
        let fa = a.drop_last();
        let fb = b.drop_last();
        assert forall|j: int| 0 <= j < fa.len() implies (#[trigger] fa[j]).same_as(fb[j]) by {
            assert(fa[j] == a[j]);
            assert(fb[j] == b[j]);
            assert(a[j].same_as(b[j]));
        }
        lemma_same_stages_do_the_same(fa, fb, plane, origin_x, origin_z);
        assert(a[a.len() - 1].same_as(b[a.len() - 1]));
        lemma_same_stage_does_the_same(a.last(), b.last(), plane, origin_x, origin_z);
        assert forall|x: int, height: int, z: int|
            #![trigger stages_point_spec(a, plane, origin_x, origin_z, x, height, z)]
            stages_point_spec(a, plane, origin_x, origin_z, x, height, z) == stages_point_spec(
                b,
                plane,
                origin_x,
                origin_z,
                x,
                height,
                z,
            ) by {
            let before = stages_point_spec(fa, plane, origin_x, origin_z, x, height, z);
            assert(a.last().point_spec(plane, origin_x, origin_z, x, before, z) == b.last().point_spec(
                plane,
                origin_x,
                origin_z,
                x,
                before,
                z,
            ));
        }
        assert forall|edges: Seq<EdgeLine>, x: int, height: int, z: int|
            #![trigger stages_area_spec(a, edges, x, height, z)]
            stages_area_spec(a, edges, x, height, z) == stages_area_spec(b, edges, x, height, z) by {
            let before = stages_area_spec(fa, edges, x, height, z);
            assert(a.last().area_spec(edges, x, before, z) == b.last().area_spec(edges, x, before, z));
        }
    }
}

/// Whether `mods` are the stages that `stages` describe, bound to a plane
/// with the bounds `plane` and the origin `(origin_x, origin_z)`.
pub open spec fn all_resolved(
    stages: Seq<ModifierData>,
    plane: AABB,
    origin_x: i64,
    origin_z: i64,
    mods: Seq<Modifier>,
) -> bool {
    &&& mods.len() == stages.len()
    &&& forall|j: int| 0 <= j < stages.len() ==> (#[trigger] stages[j]).resolves_to(plane, origin_x, origin_z, mods[j])
}

/// Stages bound to a plane do together what their descriptions say of
/// that plane.
pub proof fn lemma_threads_agree(
    stages: Seq<ModifierData>,
    plane: AABB,
    origin_x: i64,
    origin_z: i64,
    mods: Seq<Modifier>,
)
    requires
        all_resolved(stages, plane, origin_x, origin_z, mods),
    ensures
        forall|x: int, height: int, z: int|
            #![trigger point_thread_spec(mods, x, height, z, origin_x as int, origin_z as int)]
            point_thread_spec(mods, x, height, z, origin_x as int, origin_z as int) == stages_point_spec(
                stages,
                plane,
                origin_x,
                origin_z,
                x,
                height,
                z,
            ),
        forall|edges: Seq<EdgeLine>, x: int, height: int, z: int|
            #![trigger area_thread_spec(mods, edges, x, height, z)]
            area_thread_spec(mods, edges, x, height, z) == stages_area_spec(stages, edges, x, height, z),
        all_edges_spec(mods, plane) == stages_edges_spec(stages, plane, origin_x, origin_z),
    decreases stages.len(),
{
    if stages.len() > 0 {
        let front = stages.drop_last();
        let bound = mods.drop_last();
        assert forall|j: int| 0 <= j < front.len() implies (#[trigger] front[j]).resolves_to(
            plane,
            origin_x,
            origin_z,
            bound[j],
        ) by {
            assert(front[j] == stages[j]);
            assert(bound[j] == mods[j]);
        }
        lemma_threads_agree(front, plane, origin_x, origin_z, bound);
        assert(stages.last() == stages[stages.len() - 1]);
        lemma_resolved_agrees(stages.last(), plane, origin_x, origin_z, mods.last());
        assert forall|x: int, height: int, z: int|
            #![trigger point_thread_spec(mods, x, height, z, origin_x as int, origin_z as int)]
            point_thread_spec(mods, x, height, z, origin_x as int, origin_z as int) == stages_point_spec(
                stages,
                plane,
                origin_x,
                origin_z,
                x,
                height,
                z,
            ) by {
            let before = point_thread_spec(bound, x, height, z, origin_x as int, origin_z as int);
            assert(mods.last().point_spec(x, before, z, origin_x as int, origin_z as int)
                == stages.last().point_spec(plane, origin_x, origin_z, x, before, z));
        }
        assert forall|edges: Seq<EdgeLine>, x: int, height: int, z: int|
            #![trigger area_thread_spec(mods, edges, x, height, z)]
            area_thread_spec(mods, edges, x, height, z) == stages_area_spec(
                stages,
                edges,
                x,
                height,
                z,
            ) by {
            let before = area_thread_spec(bound, edges, x, height, z);
            assert(mods.last().area_spec(edges, x, before, z) == stages.last().area_spec(
                edges,
                x,
                before,
                z,
            ));
        }
    }
}

/// The height that the stages `mods` give the vertex at `pos`, each to
/// what the one before it left.
pub fn thread_point(mods: &Vec<Modifier>, pos: &[i64; 3], loc: &[i64; 3]) -> (r: i64)
    ensures
        r == point_thread_spec(
            mods@,
            pos[0] as int,
            pos[1] as int,
            pos[2] as int,
            loc[0] as int,
            loc[2] as int,
        ),
{
    let mut height: i64 = pos[1];
    let mut j: usize = 0;
    while j < mods.len()
        invariant
            j <= mods@.len(),
            height == point_thread_spec(
                mods@.take(j as int),
                pos[0] as int,
                pos[1] as int,
                pos[2] as int,
                loc[0] as int,
                loc[2] as int,
            ),
        decreases mods@.len() - j,
    {
        proof {
            assert(mods@.take(j + 1).drop_last() =~= mods@.take(j as int));
            assert(mods@.take(j + 1).last() == mods@[j as int]);
        }
        let current: [i64; 3] = [pos[0], height, pos[2]];
        height = mods[j].apply_point(&current, loc);
        j = j + 1;
    }
    proof {
        assert(mods@.take(j as int) =~= mods@);
    }
    height
}

/// The point pass: gives every vertex the height that the stages give it,
/// and tells the least and the greatest of the new heights.
pub fn point_pass(mods: &Vec<Modifier>, v_pos: &mut Vec<[i64; 3]>, loc: &[i64; 3]) -> (r: HeightExtrema)
    ensures
        final(v_pos)@.len() == old(v_pos)@.len(),
        forall|i: int|
            0 <= i < old(v_pos)@.len() ==> {
                &&& (#[trigger] final(v_pos)@[i])[0] == old(v_pos)@[i][0]
                &&& final(v_pos)@[i][2] == old(v_pos)@[i][2]
                &&& final(v_pos)@[i][1] == point_thread_spec(
                    mods@,
                    old(v_pos)@[i][0] as int,
                    old(v_pos)@[i][1] as int,
                    old(v_pos)@[i][2] as int,
                    loc[0] as int,
                    loc[2] as int,
                )
            },
        are_extrema(heights_of(final(v_pos)@), r),
{
    let ghost before = v_pos@;
    let mut min_height: i64 = i64::MAX;
    let mut max_height: i64 = i64::MIN;
    let mut i: usize = 0;
    while i < v_pos.len()
        invariant
            i <= v_pos@.len(),
            v_pos@.len() == before.len(),
            forall|k: int|
                0 <= k < i ==> {
                    &&& (#[trigger] v_pos@[k])[0] == before[k][0]
                    &&& v_pos@[k][2] == before[k][2]
                    &&& v_pos@[k][1] == point_thread_spec(
                        mods@,
                        before[k][0] as int,
                        before[k][1] as int,
                        before[k][2] as int,
                        loc[0] as int,
                        loc[2] as int,
                    )
                },
            forall|k: int| i <= k < before.len() ==> #[trigger] v_pos@[k] == before[k],
            are_extrema(heights_of(v_pos@.take(i as int)), HeightExtrema { min_height, max_height }),
        decreases v_pos@.len() - i,
    {
        let pos: [i64; 3] = v_pos[i];
        let height: i64 = thread_point(mods, &pos, loc);
        let ghost seen = v_pos@.take(i as int);
        let ghost min_before = min_height;
        let ghost max_before = max_height;
        v_pos.set(i, [pos[0], height, pos[2]]);
        if height > max_height {
            max_height = height;
        }
        if height < min_height {
            min_height = height;
        }
        proof {
            let now = heights_of(v_pos@.take(i + 1));
            let then = heights_of(seen);
            assert(now[i as int] == height);
            assert forall|k: int| 0 <= k < i implies (#[trigger] now[k]) == then[k] by {}
            assert forall|k: int| 0 <= k < now.len() implies min_height <= (#[trigger] now[k])
                <= max_height by {
                if k < i {
                    assert(now[k] == then[k]);
                }
            }
            if min_height != height {
                let a = choose|a: int| 0 <= a < then.len() && (#[trigger] then[a]) == min_before;
                assert(now[a] == then[a]);
            }
            if max_height != height {
                let b = choose|b: int| 0 <= b < then.len() && (#[trigger] then[b]) == max_before;
                assert(now[b] == then[b]);
            }
        }
        i = i + 1;
    }
    proof {
        assert(v_pos@.take(i as int) =~= v_pos@);
    }
    HeightExtrema { min_height, max_height }
}

/// Gathers the boundaries that the stages leave in a plane with the
/// bounds `plane`, one stage after the other.
pub fn collect_edges(mods: &Vec<Modifier>, plane: &AABB) -> (r: Vec<EdgeLine>)
    ensures
        r@ == all_edges_spec(mods@, *plane),
        forall|i: int| 0 <= i < r@.len() ==> (#[trigger] r@[i]).wf() && r@[i].within(*plane),
{
    let mut edges: Vec<EdgeLine> = Vec::new();
    let mut j: usize = 0;
    while j < mods.len()
        invariant
            j <= mods@.len(),
            edges@ == all_edges_spec(mods@.take(j as int), *plane),
            forall|i: int| 0 <= i < edges@.len() ==> (#[trigger] edges@[i]).wf() && edges@[i].within(*plane),
        decreases mods@.len() - j,
    {
        proof {
            assert(mods@.take(j + 1).drop_last() =~= mods@.take(j as int));
            assert(mods@.take(j + 1).last() == mods@[j as int]);
        }
        let mut inner = mods[j].get_inner_edges(plane);
        edges.append(&mut inner);
        j = j + 1;
    }
    proof {
        assert(mods@.take(j as int) =~= mods@);
    }
    edges
}

/// The area pass: every stage in its turn sees all the boundaries and the
/// heights that the stage before it left.
pub fn area_pass(mods: &mut Vec<Modifier>, v_pos: &mut Vec<[i64; 3]>, edges: &Vec<EdgeLine>)
    ensures
        final(mods)@.len() == old(mods)@.len(),
        forall|j: int| 0 <= j < old(mods)@.len() ==> (#[trigger] old(mods)@[j]).after_area(edges@, final(mods)@[j]),
        final(v_pos)@.len() == old(v_pos)@.len(),
        forall|i: int|
            0 <= i < old(v_pos)@.len() ==> {
                &&& (#[trigger] final(v_pos)@[i])[0] == old(v_pos)@[i][0]
                &&& final(v_pos)@[i][2] == old(v_pos)@[i][2]
                &&& final(v_pos)@[i][1] == area_thread_spec(
                    old(mods)@,
                    edges@,
                    old(v_pos)@[i][0] as int,
                    old(v_pos)@[i][1] as int,
                    old(v_pos)@[i][2] as int,
                )
            },
{
    let ghost before = v_pos@;
    let ghost stages = mods@;
    let mut j: usize = 0;
    while j < mods.len()
        invariant
            j <= mods@.len(),
            mods@.len() == stages.len(),
            forall|k: int| 0 <= k < j ==> (#[trigger] stages[k]).after_area(edges@, mods@[k]),
            forall|k: int| j <= k < stages.len() ==> #[trigger] mods@[k] == stages[k],
            v_pos@.len() == before.len(),
            forall|i: int|
                0 <= i < before.len() ==> {
                    &&& (#[trigger] v_pos@[i])[0] == before[i][0]
                    &&& v_pos@[i][2] == before[i][2]
                    &&& v_pos@[i][1] == area_thread_spec(
                        stages.take(j as int),
                        edges@,
                        before[i][0] as int,
                        before[i][1] as int,
                        before[i][2] as int,
                    )
                },
        decreases mods@.len() - j,
    {
        proof {
            assert(stages.take(j + 1).drop_last() =~= stages.take(j as int));
            assert(stages.take(j + 1).last() == stages[j as int]);
        }
        mods[j].apply_area(v_pos, edges);
        j = j + 1;
    }
    proof {
        assert(stages.take(j as int) =~= stages);
    }
}

/// The colour pass: the colour of every vertex by its height.
pub fn color_pass(colors: &Colors, v_pos: &Vec<[i64; 3]>, extrema: &HeightExtrema) -> (r: Vec<[i64; 4]>)
    ensures
        r@.len() == v_pos@.len(),
        forall|i: int, c: int|
            0 <= i < v_pos@.len() && 0 <= c < 4 ==> (#[trigger] r@[i][c]) == colors.channel_spec(
                v_pos@[i][1] as int,
                c,
            ),
{
    let mut v_clr: Vec<[i64; 4]> = Vec::new();
    let mut i: usize = 0;
    while i < v_pos.len()
        invariant
            i <= v_pos@.len(),
            v_clr@.len() == i,
            forall|k: int, c: int|
                0 <= k < i && 0 <= c < 4 ==> (#[trigger] v_clr@[k][c]) == colors.channel_spec(
                    v_pos@[k][1] as int,
                    c,
                ),
        decreases v_pos@.len() - i,
    {
        let pos: [i64; 3] = v_pos[i];
        v_clr.push(colors.apply(pos[1], extrema.min_height, extrema.max_height));
        i = i + 1;
    }
    v_clr
}

} // verus!
