//! Containment and orientation against the geometry kernel.

use kurbo::Point;

use laco::bound::Boundary;
use laco::edge::{EdgeGeom, EdgeHandle};
use laco::store::PointId;

fn seg(px: f64, py: f64, qx: f64, qy: f64, p_id: usize, q_id: usize) -> EdgeHandle {
    EdgeHandle {
        geom: EdgeGeom::Seg { p: Point::new(px, py), q: Point::new(qx, qy) },
        p_id: PointId(p_id),
        q_id: PointId(q_id),
    }
}

/// A counter-clockwise axis-aligned square with corners (x0, y0) and
/// (x1, y1).
fn square(x0: f64, y0: f64, x1: f64, y1: f64, first_id: usize) -> Boundary {
    let i = first_id;
    Boundary {
        edges: vec![
            seg(x0, y0, x1, y0, i, i + 1),
            seg(x1, y0, x1, y1, i + 1, i + 2),
            seg(x1, y1, x0, y1, i + 2, i + 3),
            seg(x0, y1, x0, y0, i + 3, i),
        ],
    }
}

#[test]
fn an_outer_square_contains_an_inner_square_and_not_conversely() {
    let outer = square(0.0, 0.0, 4.0, 4.0, 0);
    let inner = square(1.0, 1.0, 3.0, 3.0, 4);
    assert!(outer.contains_boundary(&inner));
    assert!(!inner.contains_boundary(&outer));
}

#[test]
fn disjoint_squares_contain_each_other_not_at_all() {
    let a = square(0.0, 0.0, 1.0, 1.0, 0);
    let b = square(5.0, 0.0, 6.0, 1.0, 4);
    assert!(!a.contains_boundary(&b));
    assert!(!b.contains_boundary(&a));
}

#[test]
fn winding_normalization_flips_only_negative_loops() {
    let ccw = square(0.0, 0.0, 1.0, 1.0, 0);
    assert!(!ccw.is_negative());
    let cw = ccw.reversed();
    assert!(cw.is_negative());

    let mut a = ccw.duplicate();
    a.orient_positive();
    assert_eq!(a, ccw);
    let mut b = cw.duplicate();
    b.orient_positive();
    assert!(!b.is_negative());
    assert_eq!(b, ccw);

    let mut c = ccw.duplicate();
    c.orient_negative();
    assert!(c.is_negative());
    assert_eq!(c, cw);
}

#[test]
fn reversing_a_boundary_twice_restores_it() {
    let b = square(0.0, 0.0, 2.0, 1.0, 0);
    assert_eq!(b.reversed().reversed(), b);
}

#[test]
fn a_circle_of_arcs_contains_its_center_region() {
    let upper = kurbo::Arc {
        center: Point::new(0.0, 0.0),
        radii: kurbo::Vec2::new(2.0, 2.0),
        start_angle: 0.0,
        sweep_angle: std::f64::consts::PI,
        x_rotation: 0.0,
    };
    let lower = kurbo::Arc {
        center: Point::new(0.0, 0.0),
        radii: kurbo::Vec2::new(2.0, 2.0),
        start_angle: std::f64::consts::PI,
        sweep_angle: std::f64::consts::PI,
        x_rotation: 0.0,
    };
    let circle = Boundary {
        edges: vec![
            EdgeHandle {
                geom: EdgeGeom::Arc {
                    curve: upper,
                    rev: false,
                    p: Point::new(2.0, 0.0),
                    q: Point::new(-2.0, 0.0),
                },
                p_id: PointId(0),
                q_id: PointId(1),
            },
            EdgeHandle {
                geom: EdgeGeom::Arc {
                    curve: lower,
                    rev: false,
                    p: Point::new(-2.0, 0.0),
                    q: Point::new(2.0, 0.0),
                },
                p_id: PointId(1),
                q_id: PointId(0),
            },
        ],
    };
    assert!(!circle.is_negative());
    let inner = square(-0.5, -0.5, 0.5, 0.5, 2);
    assert!(circle.contains_boundary(&inner));
    let outside = square(5.0, 5.0, 6.0, 6.0, 6);
    assert!(!circle.contains_boundary(&outside));
    // walked the other way, the circle's winding is negative
    assert!(circle.reversed().is_negative());
}
