//! Edge construction and reversal.

use dxf::entities::{Entity, EntityType, Line as DxfLine};
use kurbo::Point;

use laco::edge::{EdgeGeom, EdgeHandle};
use laco::store::{PointId, PointStore};

fn seg(px: f64, py: f64, qx: f64, qy: f64, p_id: usize, q_id: usize) -> EdgeHandle {
    EdgeHandle {
        geom: EdgeGeom::Seg { p: Point::new(px, py), q: Point::new(qx, qy) },
        p_id: PointId(p_id),
        q_id: PointId(q_id),
    }
}

#[test]
fn line_entity_resolves_both_endpoints() {
    let mut store = PointStore::new();
    let ent = Entity::new(EntityType::Line(DxfLine::new(
        dxf::Point::new(0.0, 0.0, 0.0),
        dxf::Point::new(2.0, 3.0, 0.0),
    )));
    let h = EdgeHandle::from_entity(&mut store, &ent).unwrap().unwrap();
    assert_eq!(h.p_id, PointId(0));
    assert_eq!(h.q_id, PointId(1));
    match h.geom {
        EdgeGeom::Seg { p, q } => {
            assert_eq!((p.x, p.y), (0.0, 0.0));
            assert_eq!((q.x, q.y), (2.0, 3.0));
        },
        _ => panic!("expected a segment"),
    }
}

#[test]
fn reversal_swaps_endpoints_and_identities() {
    let h = seg(0.0, 0.0, 1.0, 0.0, 0, 1);
    let r = h.reversed();
    assert_eq!(r.p_id, PointId(1));
    assert_eq!(r.q_id, PointId(0));
    match r.geom {
        EdgeGeom::Seg { p, q } => {
            assert_eq!((p.x, p.y), (1.0, 0.0));
            assert_eq!((q.x, q.y), (0.0, 0.0));
        },
        _ => panic!("expected a segment"),
    }
}

#[test]
fn reversing_twice_restores_the_edge() {
    let h = seg(0.0, 0.0, 1.0, 2.0, 3, 7);
    assert_eq!(h.reversed().reversed(), h);
}

#[test]
fn reversing_an_arc_twice_restores_it() {
    let mut store = PointStore::new();
    let raw = dxf::entities::Arc::new(dxf::Point::new(0.0, 0.0, 0.0), 1.0, 0.0, 90.0);
    let ent = Entity::new(EntityType::Arc(raw));
    let h = EdgeHandle::from_entity(&mut store, &ent).unwrap().unwrap();
    assert!(matches!(h.geom, EdgeGeom::Arc { .. }));
    let r = h.reversed();
    assert_ne!(r, h);
    assert_eq!(r.reversed(), h);
}

#[test]
fn as_starting_with_orients_or_rejects() {
    let h = seg(0.0, 0.0, 1.0, 0.0, 0, 1);
    assert_eq!(h.as_starting_with(PointId(0)), Some(h));
    assert_eq!(h.as_starting_with(PointId(1)), Some(h.reversed()));
    assert_eq!(h.as_starting_with(PointId(2)), None);
}

#[test]
fn arc_endpoints_come_from_center_radius_and_angles() {
    let mut store = PointStore::new();
    let raw = dxf::entities::Arc::new(dxf::Point::new(1.0, 1.0, 0.0), 2.0, 0.0, 90.0);
    let ent = Entity::new(EntityType::Arc(raw));
    let h = EdgeHandle::from_entity(&mut store, &ent).unwrap().unwrap();
    match h.geom {
        EdgeGeom::Arc { p, q, curve, rev } => {
            assert!((p.x - 3.0).abs() < 1e-12 && p.y.abs() - 1.0 < 1e-12);
            assert!((p.y - 1.0).abs() < 1e-12);
            assert!((q.x - 1.0).abs() < 1e-12);
            assert!((q.y - 3.0).abs() < 1e-12);
            assert!(!rev);
            assert_eq!(curve.center, kurbo::Point::new(1.0, 1.0));
            assert!((curve.sweep_angle - std::f64::consts::FRAC_PI_2).abs() < 1e-12);
        },
        _ => panic!("expected an arc"),
    }
}
