use terrain_planes::geometry::{AABBs, EdgeLine, Inward, AABB};
use terrain_planes::scalar::SCALE;

fn rect(min_x: i64, max_x: i64, min_z: i64, max_z: i64) -> AABB {
    AABB { min_x, max_x, min_z, max_z }
}

fn edge(x0: i64, z0: i64, x1: i64, z1: i64, inward: Inward, height: i64) -> EdgeLine {
    EdgeLine { x0, z0, x1, z1, inward, height }
}

#[test]
fn aabb_holds_its_inside_and_its_border() {
    let r = rect(-2, 2, -1, 1);
    assert!(r.contains(0, 0));
    assert!(r.contains(-2, -1));
    assert!(r.contains(2, 1));
    assert!(r.contains(-2, 1));
    assert!(r.contains(2, 0));
    assert!(!r.contains(3, 0));
    assert!(!r.contains(0, 2));
    assert!(!r.contains(-3, -2));
}

#[test]
fn overlap_is_the_common_part() {
    let outer = rect(-10, 10, -10, 10);
    assert_eq!(rect(5, 15, -20, 0).overlap(&outer), rect(5, 10, -10, 0));
    assert_eq!(rect(-2, 2, -1, 1).overlap(&outer), rect(-2, 2, -1, 1));
    assert_eq!(rect(11, 12, 0, 1).overlap(&outer), rect(11, 10, 0, 1));
}

#[test]
fn to_edges_lists_the_four_sides() {
    let outer = rect(-10, 10, -10, 10);
    let edges = rect(-2, 2, -1, 1).to_edges(&outer);
    assert_eq!(
        edges,
        vec![
            edge(-2, -1, -2, 1, Inward::PosX, 0),
            edge(2, -1, 2, 1, Inward::NegX, 0),
            edge(-2, -1, 2, -1, Inward::PosZ, 0),
            edge(-2, 1, 2, 1, Inward::NegZ, 0),
        ]
    );
}

#[test]
fn to_edges_clamps_to_the_outer_rectangle() {
    let outer = rect(-10, 10, -10, 10);
    let edges = rect(5, 15, -20, 0).to_edges(&outer);
    assert_eq!(
        edges,
        vec![
            edge(5, -10, 5, 0, Inward::PosX, 0),
            edge(10, -10, 10, 0, Inward::NegX, 0),
            edge(5, -10, 10, -10, Inward::PosZ, 0),
            edge(5, 0, 10, 0, Inward::NegZ, 0),
        ]
    );
    for e in edges.iter() {
        assert!(outer.contains(e.x0, e.z0));
        assert!(outer.contains(e.x1, e.z1));
    }
}

#[test]
fn to_edges_at_carries_the_height() {
    let outer = rect(-10, 10, -10, 10);
    let edges = rect(-2, 2, -1, 1).to_edges_at(&outer, 3 * SCALE);
    assert_eq!(edges.len(), 4);
    for e in edges.iter() {
        assert_eq!(e.height, 3 * SCALE);
    }
}

#[test]
fn degenerate_rectangles_leave_no_edges() {
    let outer = rect(-10, 10, -10, 10);
    assert!(rect(3, 3, 0, 5).to_edges(&outer).is_empty());
    assert!(rect(0, 5, 3, 3).to_edges(&outer).is_empty());
    assert!(rect(4, 2, 0, 5).to_edges(&outer).is_empty());
}

#[test]
fn rectangles_outside_leave_no_edges() {
    let outer = rect(-10, 10, -10, 10);
    assert!(rect(11, 12, 0, 5).to_edges(&outer).is_empty());
    assert!(rect(0, 5, -30, -20).to_edges(&outer).is_empty());
    assert!(rect(10, 12, 0, 5).to_edges(&outer).is_empty());
    assert!(rect(0, 5, 0, 5).to_edges(&rect(10, -10, 10, -10)).is_empty());
}

#[test]
fn a_list_of_rectangles_lists_its_edges_in_order() {
    let outer = rect(-10, 10, -10, 10);
    let list = AABBs { items: vec![rect(-2, 2, -1, 1), rect(20, 30, 0, 1), rect(5, 15, -20, 0)] };
    let edges = list.to_edges(&outer);
    assert_eq!(edges.len(), 8);
    assert_eq!(edges[0], edge(-2, -1, -2, 1, Inward::PosX, 0));
    assert_eq!(edges[3], edge(-2, 1, 2, 1, Inward::NegZ, 0));
    assert_eq!(edges[4], edge(5, -10, 5, 0, Inward::PosX, 0));
    assert_eq!(edges[7], edge(5, 0, 10, 0, Inward::NegZ, 0));
    let raised = list.to_edges_at(&outer, 7);
    assert_eq!(raised.len(), 8);
    assert_eq!(raised[5], edge(10, -10, 10, 0, Inward::NegX, 7));
}

#[test]
fn an_empty_list_leaves_no_edges_and_holds_nothing() {
    let list = AABBs { items: Vec::new() };
    assert!(list.to_edges(&rect(-10, 10, -10, 10)).is_empty());
    assert!(!list.contains(0, 0));
}

#[test]
fn a_list_holds_what_any_of_its_rectangles_holds() {
    let list = AABBs { items: vec![rect(-2, 2, -1, 1), rect(5, 6, 5, 6)] };
    assert!(list.contains(0, 0));
    assert!(list.contains(5, 6));
    assert!(list.contains(2, 1));
    assert!(!list.contains(3, 3));
    assert!(!list.contains(7, 5));
}

#[test]
fn distance_to_a_segment() {
    let e = edge(0, 0, 0, 10, Inward::PosX, 0);
    assert_eq!(e.distance_sq_within(3, 5, 4), Some(9));
    assert_eq!(e.distance_sq_within(-3, 5, 4), Some(9));
    assert_eq!(e.distance_sq_within(0, 5, 4), Some(0));
    assert_eq!(e.distance_sq_within(3, 14, 6), Some(25));
    assert_eq!(e.distance_sq_within(3, -4, 6), Some(25));
    let f = edge(-5, 2, 5, 2, Inward::NegZ, 0);
    assert_eq!(f.distance_sq_within(0, 0, 3), Some(4));
    assert_eq!(f.distance_sq_within(8, 6, 6), Some(25));
}

#[test]
fn distance_beyond_the_radius_is_not_told() {
    let e = edge(0, 0, 0, 10, Inward::PosX, 0);
    assert_eq!(e.distance_sq_within(3, 14, 5), None);
    assert_eq!(e.distance_sq_within(4, 5, 4), None);
    assert_eq!(e.distance_sq_within(8, 5, 4), None);
    assert_eq!(e.distance_sq_within(0, 5, 0), None);
    assert_eq!(e.distance_sq_within(0, 5, -1), None);
    assert_eq!(e.distance_sq_within(i64::MAX, i64::MIN, i64::MAX), None);
    assert_eq!(e.distance_sq_within(i64::MIN, 5, i64::MAX), None);
}

#[test]
fn distance_over_the_widest_reach() {
    let e = edge(0, 0, 0, 0, Inward::PosX, 0);
    let far = i64::MAX - 1;
    assert_eq!(e.distance_sq_within(far, 0, i64::MAX), Some((far as u128) * (far as u128)));
}
