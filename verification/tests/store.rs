//! Point deduplication.

use kurbo::Point;

use laco::geom::points_near;
use laco::store::{PointId, PointStore};

#[test]
fn same_coordinate_gets_the_same_id() {
    let mut store = PointStore::new();
    let a = store.id_or_insert(Point::new(0.5, -2.0));
    let b = store.id_or_insert(Point::new(0.5, -2.0));
    assert_eq!(a, b);
    assert_eq!(a, PointId(0));
}

#[test]
fn coordinate_within_tolerance_merges() {
    let mut store = PointStore::new();
    let a = store.id_or_insert(Point::new(1.0, 2.0));
    let b = store.id_or_insert(Point::new(1.0 + 1e-7, 2.0 + 1e-7));
    assert_eq!(a, b);
}

#[test]
fn distant_coordinate_gets_a_fresh_dense_id() {
    let mut store = PointStore::new();
    let a = store.id_or_insert(Point::new(0.0, 0.0));
    let b = store.id_or_insert(Point::new(1.0, 0.0));
    let c = store.id_or_insert(Point::new(0.0, 1.0));
    assert_eq!(a, PointId(0));
    assert_eq!(b, PointId(1));
    assert_eq!(c, PointId(2));
}

#[test]
fn first_seen_point_keeps_the_id() {
    let mut store = PointStore::new();
    let a = store.id_or_insert(Point::new(0.0, 0.0));
    store.id_or_insert(Point::new(1e-7, 0.0));
    let kept = store.point_of(a);
    assert_eq!(kept.x, 0.0);
    assert_eq!(kept.y, 0.0);
}

#[test]
fn all_ids_lists_every_assigned_id_in_order() {
    let mut store = PointStore::new();
    store.id_or_insert(Point::new(0.0, 0.0));
    store.id_or_insert(Point::new(1.0, 0.0));
    store.id_or_insert(Point::new(1.0, 0.0));
    let ids = store.all_ids();
    assert_eq!(ids, vec![PointId(0), PointId(1)]);
}

#[test]
fn nearness_is_strict_at_the_tolerance() {
    let o = Point::new(0.0, 0.0);
    assert!(points_near(&o, &o));
    assert!(points_near(&o, &Point::new(5e-7, 0.0)));
    assert!(points_near(&o, &Point::new(9.9e-7, 0.0)));
    assert!(!points_near(&o, &Point::new(1e-6, 0.0)));
    assert!(!points_near(&o, &Point::new(2e-6, 0.0)));
    assert!(!points_near(&o, &Point::new(0.0, 1.0)));
}

#[test]
fn nan_coordinates_never_merge() {
    let mut store = PointStore::new();
    let a = store.id_or_insert(Point::new(f64::NAN, 0.0));
    let b = store.id_or_insert(Point::new(f64::NAN, 0.0));
    assert_ne!(a, b);
}
