//! End-to-end reconstruction scenarios.

use dxf::entities::{Arc as DxfArc, Circle, Entity, EntityType, Line as DxfLine};

use laco::bound::Boundary;
use laco::edge::EdgeGeom;
use laco::err::ReconError;
use laco::model::PartModel;

fn line(x1: f64, y1: f64, x2: f64, y2: f64) -> Entity {
    Entity::new(EntityType::Line(DxfLine::new(
        dxf::Point::new(x1, y1, 0.0),
        dxf::Point::new(x2, y2, 0.0),
    )))
}

fn arc(cx: f64, cy: f64, r: f64, start_deg: f64, end_deg: f64) -> Entity {
    Entity::new(EntityType::Arc(DxfArc::new(
        dxf::Point::new(cx, cy, 0.0),
        r,
        start_deg,
        end_deg,
    )))
}

/// The vertices of a boundary, in traversal order.
fn vertices(b: &Boundary) -> Vec<(f64, f64)> {
    b.edges
        .iter()
        .map(|e| match &e.geom {
            EdgeGeom::Seg { p, .. } => (p.x, p.y),
            EdgeGeom::Arc { p, .. } => (p.x, p.y),
        })
        .collect()
}

/// The shoelace signed area of a boundary's vertex polygon.
fn signed_area(b: &Boundary) -> f64 {
    let vs = vertices(b);
    let n = vs.len();
    let mut a = 0.0;
    for i in 0..n {
        let (x1, y1) = vs[i];
        let (x2, y2) = vs[(i + 1) % n];
        a += x1 * y2 - x2 * y1;
    }
    a / 2.0
}

fn assert_closed(b: &Boundary) {
    let n = b.edges.len();
    assert!(n >= 1);
    for i in 0..n {
        assert_eq!(b.edges[i].q_id, b.edges[(i + 1) % n].p_id);
    }
}

#[test]
fn unit_square_has_one_positive_outer_boundary() {
    let ents = vec![
        line(0.0, 0.0, 1.0, 0.0),
        line(1.0, 0.0, 1.0, 1.0),
        line(1.0, 1.0, 0.0, 1.0),
        line(0.0, 1.0, 0.0, 0.0),
    ];
    let (model, notes) = PartModel::reconstruct(&ents).unwrap();
    assert!(notes.is_empty());
    assert_eq!(model.outer_bound.edges.len(), 4);
    assert!(model.inner_bounds.is_empty());
    assert_closed(&model.outer_bound);
    assert!(signed_area(&model.outer_bound) > 0.0);
}

#[test]
fn clockwise_square_is_reoriented_positive() {
    let ents = vec![
        line(0.0, 0.0, 0.0, 1.0),
        line(0.0, 1.0, 1.0, 1.0),
        line(1.0, 1.0, 1.0, 0.0),
        line(1.0, 0.0, 0.0, 0.0),
    ];
    let (model, _) = PartModel::reconstruct(&ents).unwrap();
    assert_closed(&model.outer_bound);
    assert!(signed_area(&model.outer_bound) > 0.0);
}

#[test]
fn nested_squares_give_outer_and_one_negative_hole() {
    let ents = vec![
        // the outer square, counter-clockwise
        line(0.0, 0.0, 4.0, 0.0),
        line(4.0, 0.0, 4.0, 4.0),
        line(4.0, 4.0, 0.0, 4.0),
        line(0.0, 4.0, 0.0, 0.0),
        // the hole, clockwise
        line(1.0, 1.0, 1.0, 3.0),
        line(1.0, 3.0, 3.0, 3.0),
        line(3.0, 3.0, 3.0, 1.0),
        line(3.0, 1.0, 1.0, 1.0),
    ];
    let (model, _) = PartModel::reconstruct(&ents).unwrap();
    assert_eq!(model.inner_bounds.len(), 1);
    assert_closed(&model.outer_bound);
    assert_closed(&model.inner_bounds[0]);
    // the outer boundary is the big square
    let outer_area = signed_area(&model.outer_bound);
    assert!(outer_area > 0.0);
    assert!((outer_area - 16.0).abs() < 1e-9);
    // the hole is the small square, negatively oriented
    let hole_area = signed_area(&model.inner_bounds[0]);
    assert!(hole_area < 0.0);
    assert!((hole_area + 4.0).abs() < 1e-9);
    // the hole's vertices lie inside the outer square
    for (x, y) in vertices(&model.inner_bounds[0]) {
        assert!(0.0 < x && x < 4.0 && 0.0 < y && y < 4.0);
    }
}

#[test]
fn endpoints_within_tolerance_close_the_loop() {
    let eps = 1e-7;
    let ents = vec![
        line(0.0, 0.0, 1.0, 0.0),
        line(1.0 + eps, 0.0 + eps, 0.5, 1.0),
        line(0.5 + eps, 1.0 + eps, 0.0 + eps, 0.0 + eps),
    ];
    let (model, _) = PartModel::reconstruct(&ents).unwrap();
    assert_eq!(model.outer_bound.edges.len(), 3);
    assert_closed(&model.outer_bound);
    assert!(model.inner_bounds.is_empty());
}

#[test]
fn two_lines_share_a_point_within_tolerance() {
    let eps = 1e-7;
    let ents = vec![
        line(0.0, 0.0, 1.0, 1.0),
        line(1.0 + eps, 1.0 + eps, 0.0, 0.0),
    ];
    let (model, _) = PartModel::reconstruct(&ents).unwrap();
    assert_eq!(model.outer_bound.edges.len(), 2);
    assert_closed(&model.outer_bound);
}

#[test]
fn missing_edge_fails_with_dangling_edge() {
    let ents = vec![
        line(0.0, 0.0, 1.0, 0.0),
        line(1.0, 0.0, 1.0, 1.0),
        line(1.0, 1.0, 0.0, 1.0),
    ];
    assert_eq!(
        PartModel::reconstruct(&ents).unwrap_err(),
        ReconError::DanglingEdge
    );
}

#[test]
fn disjoint_squares_fail_without_enclosing_boundary() {
    let ents = vec![
        line(0.0, 0.0, 1.0, 0.0),
        line(1.0, 0.0, 1.0, 1.0),
        line(1.0, 1.0, 0.0, 1.0),
        line(0.0, 1.0, 0.0, 0.0),
        line(5.0, 0.0, 6.0, 0.0),
        line(6.0, 0.0, 6.0, 1.0),
        line(6.0, 1.0, 5.0, 1.0),
        line(5.0, 1.0, 5.0, 0.0),
    ];
    assert_eq!(
        PartModel::reconstruct(&ents).unwrap_err(),
        ReconError::NoEnclosingBoundary
    );
}

#[test]
fn non_planar_arc_is_fatal() {
    let mut raw = DxfArc::new(dxf::Point::new(0.0, 0.0, 0.0), 1.0, 0.0, 180.0);
    raw.normal = dxf::Vector::new(0.0, 1.0, 0.0);
    let ents = vec![
        line(-1.0, 0.0, 1.0, 0.0),
        Entity::new(EntityType::Arc(raw)),
    ];
    assert_eq!(
        PartModel::reconstruct(&ents).unwrap_err(),
        ReconError::NonPlanarArc
    );
}

#[test]
fn unsupported_primitives_are_skipped_and_reported() {
    let ents = vec![
        line(0.0, 0.0, 1.0, 0.0),
        line(1.0, 0.0, 1.0, 1.0),
        line(1.0, 1.0, 0.0, 1.0),
        line(0.0, 1.0, 0.0, 0.0),
        Entity::new(EntityType::Circle(Circle::new(
            dxf::Point::new(9.0, 9.0, 0.0),
            0.5,
        ))),
    ];
    let (model, notes) = PartModel::reconstruct(&ents).unwrap();
    assert_eq!(model.outer_bound.edges.len(), 4);
    assert_eq!(notes.len(), 1);
    assert!(notes[0].contains("Circle"));
}

#[test]
fn half_disc_mixes_an_arc_and_a_segment() {
    let ents = vec![
        line(-1.0, 0.0, 1.0, 0.0),
        // counter-clockwise from the positive x axis to the negative
        arc(0.0, 0.0, 1.0, 0.0, 180.0),
    ];
    let (model, notes) = PartModel::reconstruct(&ents).unwrap();
    assert!(notes.is_empty());
    assert_eq!(model.outer_bound.edges.len(), 2);
    assert_closed(&model.outer_bound);
    assert!(model.inner_bounds.is_empty());
    let has_arc = model
        .outer_bound
        .edges
        .iter()
        .any(|e| matches!(e.geom, EdgeGeom::Arc { .. }));
    assert!(has_arc);
}

#[test]
fn arc_endpoints_merge_with_line_endpoints() {
    // the arc's computed endpoints (cos/sin) land within tolerance of the
    // line's endpoints, so the loop closes through shared identities
    let ents = vec![
        arc(0.0, 0.0, 2.0, 90.0, 180.0),
        line(-2.0, 0.0, 0.0, 2.0),
    ];
    let (model, _) = PartModel::reconstruct(&ents).unwrap();
    assert_eq!(model.outer_bound.edges.len(), 2);
    assert_closed(&model.outer_bound);
}
