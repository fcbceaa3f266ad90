use terrain_planes::easings::{EasingData, Easings};
use terrain_planes::flat::{FlatEdge, FlatEdgeData, FlatEdges, FlatEdgesData, RegionData};
use terrain_planes::geometry::{AABBs, EdgeLine, Inward, AABB};
use terrain_planes::modifiers::{Modifier, ModifierData};
use terrain_planes::noise::{lattice_value, mix, value_noise, Noise, NoiseBlend, NoiseData};
use terrain_planes::planes::PlaneData;
use terrain_planes::scalar::SCALE;
use terrain_planes::smooth::{SmoothEdge, SmoothEdgeData};
use terrain_planes::wander::{TargetWanderNoise, TargetWanderNoiseData};

fn rect(min_x: i64, max_x: i64, min_z: i64, max_z: i64) -> AABB {
    AABB { min_x, max_x, min_z, max_z }
}

fn edge(x0: i64, z0: i64, x1: i64, z1: i64, height: i64) -> EdgeLine {
    EdgeLine { x0, z0, x1, z1, inward: Inward::PosX, height }
}

fn plane_bounds() -> AABB {
    rect(-10 * SCALE, 10 * SCALE, -10 * SCALE, 10 * SCALE)
}

fn noise(seed: u32, frequency: i64, amplitude: i64, octaves: u8, blend: NoiseBlend) -> Noise {
    Noise { seed, frequency, amplitude, octaves, blend }
}

fn smooth(radius: i64, easing: Easings, edges: Vec<EdgeLine>) -> SmoothEdge {
    SmoothEdge { radius, easing, edges }
}

// ---- flattening ------------------------------------------------------

#[test]
fn flat_edges_membership() {
    let stage = FlatEdges {
        aabbs: AABBs { items: vec![rect(-10, -5, -10, 10), rect(5, 10, -10, 10)] },
        height: 0,
    };
    // corners
    assert_eq!(stage.apply(&[-10, 77, -10]), 0);
    assert_eq!(stage.apply(&[-5, 77, 10]), 0);
    assert_eq!(stage.apply(&[5, 77, -10]), 0);
    assert_eq!(stage.apply(&[10, 77, 10]), 0);
    // midpoints, strictly inside
    assert_eq!(stage.apply(&[-7, 77, 0]), 0);
    assert_eq!(stage.apply(&[8, 77, 1]), 0);
    // exterior
    assert_eq!(stage.apply(&[0, 77, 0]), 77);
    assert_eq!(stage.apply(&[-4, 77, 0]), 77);
    assert_eq!(stage.apply(&[11, 77, 0]), 77);
    assert_eq!(stage.apply(&[-7, 77, 11]), 77);
}

#[test]
fn flat_edges_force_their_own_height() {
    let stage = FlatEdges { aabbs: AABBs { items: vec![rect(0, 4, 0, 4)] }, height: -3 * SCALE };
    assert_eq!(stage.apply(&[2, 9 * SCALE, 2]), -3 * SCALE);
    assert_eq!(stage.apply(&[5, 9 * SCALE, 2]), 9 * SCALE);
    let none = FlatEdges { aabbs: AABBs { items: Vec::new() }, height: 1 };
    assert_eq!(none.apply(&[0, 9, 0]), 9);
}

#[test]
fn flat_edge_membership() {
    let stage = FlatEdge { aabbs: rect(-2, 2, -1, 1), height: 5 };
    assert_eq!(stage.apply(&[0, 9, 0]), 5);
    assert_eq!(stage.apply(&[-2, 9, -1]), 5);
    assert_eq!(stage.apply(&[2, 9, 1]), 5);
    assert_eq!(stage.apply(&[3, 9, 0]), 9);
    assert_eq!(stage.apply(&[0, 9, -2]), 9);
}

#[test]
fn flat_stages_leave_their_boundaries_at_their_height() {
    let outer = rect(-10, 10, -10, 10);
    let one = FlatEdge { aabbs: rect(-2, 2, -1, 1), height: 5 };
    let edges = one.to_edges(&outer);
    assert_eq!(edges.len(), 4);
    assert_eq!(edges[1], EdgeLine { x0: 2, z0: -1, x1: 2, z1: 1, inward: Inward::NegX, height: 5 });
    let many = FlatEdges {
        aabbs: AABBs { items: vec![rect(-2, 2, -1, 1), rect(8, 12, 0, 4)] },
        height: 7,
    };
    let edges = many.to_edges(&outer);
    assert_eq!(edges.len(), 8);
    assert_eq!(edges[5], EdgeLine { x0: 10, z0: 0, x1: 10, z1: 4, inward: Inward::NegX, height: 7 });
}

#[test]
fn regions_resolve_against_the_plane() {
    let region = RegionData { from_x: 0, to_x: 250_000, from_z: 500_000, to_z: SCALE };
    assert!(region.is_consistent());
    assert_eq!(
        region.resolve(&plane_bounds()),
        rect(-10 * SCALE, -5 * SCALE, 0, 10 * SCALE)
    );
    let whole = RegionData { from_x: 0, to_x: SCALE, from_z: 0, to_z: SCALE };
    assert_eq!(whole.resolve(&plane_bounds()), plane_bounds());
    let backwards = RegionData { from_x: SCALE, to_x: 0, from_z: 0, to_z: SCALE };
    assert!(!backwards.is_consistent());
    assert!(!RegionData { from_x: 0, to_x: 1, from_z: 2, to_z: 1 }.is_consistent());
}

#[test]
fn flat_descriptions_become_stages() {
    let region = RegionData { from_x: 0, to_x: 250_000, from_z: 0, to_z: SCALE };
    let other = RegionData { from_x: 750_000, to_x: SCALE, from_z: 0, to_z: SCALE };
    let one = FlatEdgeData { region, height: 3 }.set(&plane_bounds());
    assert_eq!(one, FlatEdge { aabbs: rect(-10 * SCALE, -5 * SCALE, -10 * SCALE, 10 * SCALE), height: 3 });
    let many = FlatEdgesData { regions: vec![region, other], height: 4 }.set(&plane_bounds());
    assert_eq!(many.height, 4);
    assert_eq!(
        many.aabbs.items,
        vec![
            rect(-10 * SCALE, -5 * SCALE, -10 * SCALE, 10 * SCALE),
            rect(5 * SCALE, 10 * SCALE, -10 * SCALE, 10 * SCALE),
        ]
    );
}

// ---- smoothing -------------------------------------------------------

#[test]
fn smooth_edge_locality() {
    let radius = 4 * SCALE;
    let stage = smooth(radius, Easings::SmoothStep, vec![edge(0, 0, 0, 10 * SCALE, 0)]);
    let v_pos = vec![
        [radius / 2, 10 * SCALE, 5 * SCALE],
        [2 * radius, 10 * SCALE, 5 * SCALE],
    ];
    let found = stage.apply(&v_pos);
    assert_eq!(found.height_at(0), Some(5 * SCALE));
    assert_eq!(found.height_at(1), None);
    assert_eq!(found.height_at(2), None);

    let mut moved = v_pos.clone();
    let mut m = Modifier::SmoothEdge(smooth(radius, Easings::SmoothStep, Vec::new()));
    m.apply_area(&mut moved, &vec![edge(0, 0, 0, 10 * SCALE, 0)]);
    assert_eq!(moved[0], [radius / 2, 5 * SCALE, 5 * SCALE]);
    assert_eq!(moved[1], v_pos[1]);
}

#[test]
fn smooth_edge_blends_towards_the_height_of_the_edge() {
    let stage = smooth(4 * SCALE, Easings::SmoothStep, vec![edge(0, 0, 0, 10 * SCALE, 2 * SCALE)]);
    assert_eq!(stage.smooth_vertex(&[0, 10 * SCALE, 5 * SCALE]), Some(2 * SCALE));
    assert_eq!(stage.smooth_vertex(&[SCALE, 10 * SCALE, 5 * SCALE]), Some(3_250_000));
    assert_eq!(stage.smooth_vertex(&[3 * SCALE, 10 * SCALE, 5 * SCALE]), Some(8_750_000));
    assert_eq!(stage.smooth_vertex(&[-3 * SCALE, -6 * SCALE, 5 * SCALE]), Some(-4_750_000));
    assert_eq!(stage.smooth_vertex(&[4 * SCALE, 10 * SCALE, 5 * SCALE]), None);
}

#[test]
fn smooth_edge_uses_its_curve() {
    let edges = vec![edge(0, 0, 0, 10 * SCALE, 0)];
    let plain = smooth(4 * SCALE, Easings::Identity, edges.clone());
    assert_eq!(plain.smooth_vertex(&[SCALE, 10 * SCALE, 5 * SCALE]), Some(2_500_000));
    let start = smooth(4 * SCALE, Easings::SmoothStart, edges);
    assert_eq!(start.smooth_vertex(&[SCALE, 10 * SCALE, 5 * SCALE]), Some(4_375_000));
}

#[test]
fn smooth_edge_measures_to_the_end_of_a_segment() {
    let stage = smooth(10 * SCALE, Easings::Identity, vec![edge(0, 0, 0, 10 * SCALE, 0)]);
    // three along x, four beyond the end along z: five away
    assert_eq!(stage.smooth_vertex(&[3 * SCALE, 10 * SCALE, 14 * SCALE]), Some(5 * SCALE));
}

#[test]
fn smooth_edge_takes_the_nearest_edge_and_the_first_of_equals() {
    let edges = vec![
        edge(0, 0, 0, 10 * SCALE, SCALE),
        edge(4 * SCALE, 0, 4 * SCALE, 10 * SCALE, 2 * SCALE),
        edge(0, 0, 0, 10 * SCALE, 3 * SCALE),
    ];
    let stage = smooth(8 * SCALE, Easings::Identity, edges);
    assert_eq!(stage.nearest(3 * SCALE, 5 * SCALE), Some((1, 1_000_000_000_000)));
    assert_eq!(stage.nearest(SCALE, 5 * SCALE), Some((0, 1_000_000_000_000)));
    assert_eq!(stage.nearest(2 * SCALE, 5 * SCALE), Some((0, 4_000_000_000_000)));
    assert_eq!(stage.nearest(20 * SCALE, 5 * SCALE), None);
    // one from the second edge: weight 7/8 of its height 2
    assert_eq!(stage.smooth_vertex(&[3 * SCALE, 10 * SCALE, 5 * SCALE]), Some(3 * SCALE));
}

#[test]
fn smooth_edge_without_radius_or_edges_changes_nothing() {
    let edges = vec![edge(0, 0, 0, 10 * SCALE, 0)];
    let v_pos = vec![[0, 10 * SCALE, 5 * SCALE], [SCALE, 10 * SCALE, 5 * SCALE]];
    for radius in [0, -SCALE] {
        let stage = smooth(radius, Easings::SmoothStep, edges.clone());
        let found = stage.apply(&v_pos);
        assert_eq!(found.height_at(0), None);
        assert_eq!(found.height_at(1), None);
        let mut moved = v_pos.clone();
        Modifier::SmoothEdge(smooth(radius, Easings::SmoothStep, Vec::new())).apply_area(&mut moved, &edges);
        assert_eq!(moved, v_pos);
    }
    let lonely = smooth(4 * SCALE, Easings::SmoothStep, Vec::new());
    assert_eq!(lonely.apply(&v_pos).height_at(0), None);
    assert_eq!(lonely.smooth_vertex(&v_pos[0]), None);
}

#[test]
fn smooth_edge_update_replaces_the_edges() {
    let mut stage = SmoothEdgeData { radius: 4 * SCALE, easing: Easings::Identity }.set();
    assert!(stage.edges.is_empty());
    assert_eq!(stage.radius, 4 * SCALE);
    assert_eq!(stage.easing, Easings::Identity);
    stage.update(&vec![edge(0, 0, 0, 1, 0), edge(1, 0, 1, 1, 0)]);
    assert_eq!(stage.edges, vec![edge(0, 0, 0, 1, 0), edge(1, 0, 1, 1, 0)]);
    stage.update(&vec![edge(2, 0, 2, 1, 9)]);
    assert_eq!(stage.edges, vec![edge(2, 0, 2, 1, 9)]);
    assert_eq!(stage.radius, 4 * SCALE);
}

#[test]
fn smooth_edge_defaults_to_the_smooth_step() {
    let data = SmoothEdgeData::new(3 * SCALE);
    assert_eq!(data.radius, 3 * SCALE);
    assert_eq!(data.easing, Easings::SmoothStep);
}

#[test]
fn overrides_hold_every_vertex_in_reach_once() {
    let stage = smooth(4 * SCALE, Easings::Identity, vec![edge(0, 0, 0, 10 * SCALE, 0)]);
    let mut v_pos: Vec<[i64; 3]> = Vec::new();
    for i in 0..40i64 {
        v_pos.push([i * SCALE / 4, 8 * SCALE, 5 * SCALE]);
    }
    let found = stage.apply(&v_pos);
    for i in 0..40usize {
        let expected = if i < 16 { Some((i as i64) * SCALE / 2) } else { None };
        assert_eq!(found.height_at(i), expected, "vertex {}", i);
    }
    assert_eq!(found.height_at(40), None);
    let mut moved = v_pos.clone();
    Modifier::SmoothEdge(smooth(4 * SCALE, Easings::Identity, Vec::new()))
        .apply_area(&mut moved, &vec![edge(0, 0, 0, 10 * SCALE, 0)]);
    for i in 0..40usize {
        let y = if i < 16 { (i as i64) * SCALE / 2 } else { 8 * SCALE };
        assert_eq!(moved[i], [v_pos[i][0], y, v_pos[i][2]], "vertex {}", i);
    }
}

// ---- noise -----------------------------------------------------------

#[test]
fn mix_scrambles() {
    assert_eq!(mix(0), 0);
    assert_eq!(mix(1), 12_994_781_566_227_106_604);
}

#[test]
fn lattice_values() {
    assert_eq!(lattice_value(7, 0, 0), -149_669);
    assert_eq!(lattice_value(7, 1, 0), 77_040);
    assert_eq!(lattice_value(7, 0, 1), 390_031);
    assert_eq!(lattice_value(7, 1, 1), 817_938);
    assert_eq!(lattice_value(7, -1, -1), 792_961);
    assert_eq!(lattice_value(42, 3, 4), 895_020);
}

#[test]
fn lattice_values_lie_between_minus_one_and_one() {
    for seed in 0..4u32 {
        for ix in -6..6i64 {
            for iz in -6..6i64 {
                let v = lattice_value(seed, ix, iz);
                assert!(-SCALE <= v && v <= SCALE);
            }
        }
    }
    let a = lattice_value(1, i64::MAX, i64::MIN);
    assert!(-SCALE <= a && a <= SCALE);
}

#[test]
fn value_noise_meets_the_lattice_and_blends_between() {
    assert_eq!(value_noise(7, 0, 0), -149_669);
    assert_eq!(value_noise(7, SCALE, SCALE), 817_938);
    assert_eq!(value_noise(7, 500_000, 500_000), 283_834);
    assert_eq!(value_noise(7, -250_000, 1_750_000), 295_354);
}

#[test]
fn noise_sample_sums_its_octaves() {
    let n = noise(7, 500_000, 2 * SCALE, 3, NoiseBlend::Replace);
    assert_eq!(n.sample(1_500_000, -2_500_000), -1_392_290);
    let one = noise(42, SCALE, SCALE, 1, NoiseBlend::Replace);
    assert_eq!(one.sample(3 * SCALE, 4 * SCALE), 895_020);
    let silent = noise(42, SCALE, SCALE, 0, NoiseBlend::Replace);
    assert_eq!(silent.sample(3 * SCALE, 4 * SCALE), 0);
}

#[test]
fn noise_is_sampled_at_the_world_position() {
    let n = noise(42, SCALE, SCALE, 1, NoiseBlend::Replace);
    assert_eq!(n.apply(&[SCALE, 5, SCALE], &[2 * SCALE, 99, 3 * SCALE]), 895_020);
    assert_eq!(n.apply(&[3 * SCALE, 5, 4 * SCALE], &[0, 0, 0]), 895_020);
}

#[test]
fn noise_adds_or_replaces() {
    let add = noise(42, SCALE, SCALE, 1, NoiseBlend::Add);
    assert_eq!(add.apply(&[3 * SCALE, 5 * SCALE, 4 * SCALE], &[0, 0, 0]), 5_895_020);
    assert_eq!(add.apply(&[3 * SCALE, i64::MAX, 4 * SCALE], &[0, 0, 0]), i64::MAX);
    let replace = noise(42, SCALE, SCALE, 1, NoiseBlend::Replace);
    assert_eq!(replace.apply(&[3 * SCALE, 5 * SCALE, 4 * SCALE], &[0, 0, 0]), 895_020);
}

#[test]
fn noise_depends_on_its_seed() {
    let a = noise(1, SCALE, SCALE, 2, NoiseBlend::Replace);
    let b = noise(2, SCALE, SCALE, 2, NoiseBlend::Replace);
    let mut differs = false;
    for i in 0..16i64 {
        if a.sample(i * 700_000, i * 300_000) != b.sample(i * 700_000, i * 300_000) {
            differs = true;
        }
        assert_eq!(a.sample(i * 700_000, i * 300_000), a.sample(i * 700_000, i * 300_000));
    }
    assert!(differs);
}

#[test]
fn noise_survives_the_ends_of_the_scalar_range() {
    let n = noise(3, i64::MAX, i64::MAX, 255, NoiseBlend::Add);
    let _ = n.apply(&[i64::MAX, i64::MAX, i64::MIN], &[i64::MAX, 0, i64::MIN]);
    let m = noise(3, i64::MIN, i64::MIN, 255, NoiseBlend::Replace);
    let _ = m.apply(&[i64::MIN, i64::MIN, i64::MAX], &[i64::MIN, 0, i64::MAX]);
}

#[test]
fn noise_description_becomes_the_stage() {
    let data = NoiseData { seed: 9, frequency: 3, amplitude: 4, octaves: 5, blend: NoiseBlend::Add };
    assert_eq!(data.set(), noise(9, 3, 4, 5, NoiseBlend::Add));
}

// ---- target noise ----------------------------------------------------

fn wander(reach: i64) -> TargetWanderNoise {
    TargetWanderNoiseData {
        noise: NoiseData { seed: 42, frequency: SCALE, amplitude: SCALE, octaves: 1, blend: NoiseBlend::Add },
        target_x: 500_000,
        target_z: 500_000,
        reach,
    }
    .set(&plane_bounds(), &[3 * SCALE, 0, 4 * SCALE])
}

#[test]
fn wander_description_becomes_the_stage() {
    let stage = wander(4 * SCALE);
    assert_eq!(stage.target_x, 0);
    assert_eq!(stage.target_z, 0);
    assert_eq!(stage.origin_x, 3 * SCALE);
    assert_eq!(stage.origin_z, 4 * SCALE);
    assert_eq!(stage.reach, 4 * SCALE);
    assert_eq!(stage.region, rect(-4 * SCALE, 4 * SCALE, -4 * SCALE, 4 * SCALE));
    assert_eq!(stage.noise, noise(42, SCALE, SCALE, 1, NoiseBlend::Add));
}

#[test]
fn wander_weight_fades_with_the_distance() {
    let stage = wander(4 * SCALE);
    assert_eq!(stage.weight(0, 0), SCALE);
    assert_eq!(stage.weight(SCALE, 0), 750_000);
    assert_eq!(stage.weight(SCALE, -2 * SCALE), 500_000);
    assert_eq!(stage.weight(-3 * SCALE, 3 * SCALE), 250_000);
    assert_eq!(stage.weight(4 * SCALE, 0), 0);
    assert_eq!(stage.weight(0, -5 * SCALE), 0);
    assert_eq!(stage.weight(i64::MAX, i64::MIN), 0);
    assert_eq!(wander(0).weight(0, 0), 0);
    assert_eq!(wander(-SCALE).weight(0, 0), 0);
}

#[test]
fn wander_adds_its_share_of_the_noise() {
    let stage = wander(4 * SCALE);
    // at the target the world point is (3, 4), where the noise is 0.895020
    assert_eq!(stage.apply(&[0, 10 * SCALE, 0]), 10_895_020);
    let half = stage.apply(&[2 * SCALE, 10 * SCALE, 0]);
    let expected = 10 * SCALE + value_noise(42, 5 * SCALE, 4 * SCALE).div_euclid(2);
    assert_eq!(half, expected);
}

#[test]
fn wander_leaves_the_outside_alone() {
    let stage = wander(4 * SCALE);
    assert_eq!(stage.apply(&[4 * SCALE, 10 * SCALE, 0]), 10 * SCALE);
    assert_eq!(stage.apply(&[5 * SCALE, -7, 5 * SCALE]), -7);
    assert_eq!(stage.apply(&[0, 3, -9 * SCALE]), 3);
}

#[test]
fn wander_leaves_the_boundary_of_its_square() {
    let stage = wander(4 * SCALE);
    let edges = stage.to_edges(&plane_bounds());
    assert_eq!(edges.len(), 4);
    assert_eq!(
        edges[0],
        EdgeLine {
            x0: -4 * SCALE,
            z0: -4 * SCALE,
            x1: -4 * SCALE,
            z1: 4 * SCALE,
            inward: Inward::PosX,
            height: 0,
        }
    );
    assert!(wander(0).to_edges(&plane_bounds()).is_empty());
    let wide = wander(40 * SCALE).to_edges(&plane_bounds());
    assert_eq!(wide.len(), 4);
    for e in wide.iter() {
        assert!(plane_bounds().contains(e.x0, e.z0) && plane_bounds().contains(e.x1, e.z1));
    }
}

// ---- dispatch --------------------------------------------------------

#[test]
fn apply_point_dispatches() {
    let loc = [0, 0, 0];
    let easing = Modifier::Easing(EasingData { easing: Easings::SmoothStart });
    assert_eq!(easing.apply_point(&[0, 300_000, 0], &loc), 90_000);
    let flat = Modifier::FlatEdge(FlatEdge { aabbs: rect(-2, 2, -1, 1), height: 5 });
    assert_eq!(flat.apply_point(&[0, 9, 0], &loc), 5);
    assert_eq!(flat.apply_point(&[3, 9, 0], &loc), 9);
    let flats = Modifier::FlatEdges(FlatEdges { aabbs: AABBs { items: vec![rect(-2, 2, -1, 1)] }, height: 6 });
    assert_eq!(flats.apply_point(&[0, 9, 0], &loc), 6);
    let n = Modifier::Noise(noise(42, SCALE, SCALE, 1, NoiseBlend::Replace));
    assert_eq!(n.apply_point(&[SCALE, 9, SCALE], &[2 * SCALE, 0, 3 * SCALE]), 895_020);
    let w = Modifier::TargetWanderNoise(wander(4 * SCALE));
    assert_eq!(w.apply_point(&[0, 10 * SCALE, 0], &[77, 77, 77]), 10_895_020);
    let s = Modifier::SmoothEdge(smooth(4 * SCALE, Easings::SmoothStep, vec![edge(0, 0, 0, 10, 0)]));
    assert_eq!(s.apply_point(&[0, 123, 0], &loc), 123);
}

#[test]
fn apply_area_of_point_stages_changes_nothing() {
    let edges = vec![edge(0, 0, 0, 10 * SCALE, 0)];
    let v_pos = vec![[0, 10 * SCALE, 5 * SCALE], [SCALE, 10 * SCALE, 5 * SCALE]];
    let stages = vec![
        Modifier::Easing(EasingData { easing: Easings::SmoothStart }),
        Modifier::FlatEdge(FlatEdge { aabbs: rect(-2, 2, -1, 1), height: 5 }),
        Modifier::FlatEdges(FlatEdges { aabbs: AABBs { items: vec![rect(-2, 2, -1, 1)] }, height: 6 }),
        Modifier::Noise(noise(42, SCALE, SCALE, 1, NoiseBlend::Replace)),
        Modifier::TargetWanderNoise(wander(4 * SCALE)),
    ];
    for mut stage in stages {
        let mut moved = v_pos.clone();
        stage.apply_area(&mut moved, &edges);
        assert_eq!(moved, v_pos);
    }
}

#[test]
fn apply_area_hands_the_edges_to_the_smoothing_stage() {
    let mut stage = Modifier::SmoothEdge(smooth(4 * SCALE, Easings::Identity, vec![edge(9, 9, 9, 9, 9)]));
    let mut v_pos = vec![[SCALE, 10 * SCALE, 5 * SCALE]];
    stage.apply_area(&mut v_pos, &vec![edge(0, 0, 0, 10 * SCALE, 0)]);
    assert_eq!(v_pos, vec![[SCALE, 2_500_000, 5 * SCALE]]);
    match stage {
        Modifier::SmoothEdge(data) => assert_eq!(data.edges, vec![edge(0, 0, 0, 10 * SCALE, 0)]),
        _ => panic!("the stage changed its kind"),
    }
}

#[test]
fn get_inner_edges_dispatches() {
    let outer = rect(-10, 10, -10, 10);
    let flat = Modifier::FlatEdge(FlatEdge { aabbs: rect(-2, 2, -1, 1), height: 5 });
    assert_eq!(flat.get_inner_edges(&outer).len(), 4);
    assert_eq!(flat.get_inner_edges(&outer)[0].height, 5);
    let flats = Modifier::FlatEdges(FlatEdges {
        aabbs: AABBs { items: vec![rect(-2, 2, -1, 1), rect(3, 4, 3, 4), rect(50, 60, 0, 1)] },
        height: 6,
    });
    assert_eq!(flats.get_inner_edges(&outer).len(), 8);
    let w = Modifier::TargetWanderNoise(wander(4 * SCALE));
    assert_eq!(w.get_inner_edges(&plane_bounds()).len(), 4);
    assert!(Modifier::Easing(EasingData { easing: Easings::SmoothStart }).get_inner_edges(&outer).is_empty());
    assert!(Modifier::Noise(noise(1, 1, 1, 1, NoiseBlend::Add)).get_inner_edges(&outer).is_empty());
    assert!(Modifier::SmoothEdge(smooth(4, Easings::SmoothStep, vec![edge(0, 0, 0, 5, 0)]))
        .get_inner_edges(&outer)
        .is_empty());
}

#[test]
fn descriptions_are_bound_to_the_plane() {
    let mut pd = PlaneData::new();
    pd.loc = [3 * SCALE, 0, 4 * SCALE];
    let region = RegionData { from_x: 0, to_x: 250_000, from_z: 0, to_z: SCALE };
    match ModifierData::FlatEdge(FlatEdgeData { region, height: 3 }).set(&pd) {
        Modifier::FlatEdge(stage) => {
            assert_eq!(stage.aabbs, rect(-10 * SCALE, -5 * SCALE, -10 * SCALE, 10 * SCALE));
            assert_eq!(stage.height, 3);
        },
        _ => panic!("wrong kind"),
    }
    match ModifierData::FlatEdges(FlatEdgesData { regions: vec![region, region], height: 3 }).set(&pd) {
        Modifier::FlatEdges(stage) => assert_eq!(stage.aabbs.items.len(), 2),
        _ => panic!("wrong kind"),
    }
    match ModifierData::Easing(EasingData { easing: Easings::SmoothEnd }).set(&pd) {
        Modifier::Easing(stage) => assert_eq!(stage.easing, Easings::SmoothEnd),
        _ => panic!("wrong kind"),
    }
    let noise_data = NoiseData { seed: 42, frequency: SCALE, amplitude: SCALE, octaves: 1, blend: NoiseBlend::Add };
    match ModifierData::Noise(noise_data).set(&pd) {
        Modifier::Noise(stage) => assert_eq!(stage, noise(42, SCALE, SCALE, 1, NoiseBlend::Add)),
        _ => panic!("wrong kind"),
    }
    match ModifierData::SmoothEdge(SmoothEdgeData::new(SCALE)).set(&pd) {
        Modifier::SmoothEdge(stage) => {
            assert_eq!(stage.radius, SCALE);
            assert!(stage.edges.is_empty());
        },
        _ => panic!("wrong kind"),
    }
    let wander_data = TargetWanderNoiseData { noise: noise_data, target_x: 500_000, target_z: 500_000, reach: 4 * SCALE };
    match ModifierData::TargetWanderNoise(wander_data).set(&pd) {
        Modifier::TargetWanderNoise(stage) => assert_eq!(stage, wander(4 * SCALE)),
        _ => panic!("wrong kind"),
    }
}

#[test]
fn descriptions_know_whether_they_are_consistent() {
    let good = RegionData { from_x: 0, to_x: 250_000, from_z: 0, to_z: SCALE };
    let bad = RegionData { from_x: 250_000, to_x: 0, from_z: 0, to_z: SCALE };
    let noise_data = NoiseData { seed: 42, frequency: SCALE, amplitude: SCALE, octaves: 1, blend: NoiseBlend::Add };
    assert!(ModifierData::FlatEdge(FlatEdgeData { region: good, height: 0 }).is_consistent());
    assert!(!ModifierData::FlatEdge(FlatEdgeData { region: bad, height: 0 }).is_consistent());
    assert!(ModifierData::FlatEdges(FlatEdgesData { regions: vec![good, good], height: 0 }).is_consistent());
    assert!(ModifierData::FlatEdges(FlatEdgesData { regions: Vec::new(), height: 0 }).is_consistent());
    assert!(!ModifierData::FlatEdges(FlatEdgesData { regions: vec![good, bad], height: 0 }).is_consistent());
    assert!(ModifierData::Easing(EasingData { easing: Easings::Identity }).is_consistent());
    assert!(ModifierData::Noise(noise_data).is_consistent());
    assert!(ModifierData::SmoothEdge(SmoothEdgeData::new(-5)).is_consistent());
    assert!(ModifierData::TargetWanderNoise(TargetWanderNoiseData { noise: noise_data, target_x: 0, target_z: 0, reach: 0 }).is_consistent());
    assert!(!ModifierData::TargetWanderNoise(TargetWanderNoiseData { noise: noise_data, target_x: 0, target_z: 0, reach: -1 }).is_consistent());
}
