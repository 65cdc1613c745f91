//! Annotation marks.

use kurbo::Point;

use laco::bound::Boundary;
use laco::edge::{EdgeGeom, EdgeHandle};
use laco::marks::{Annotation, Interaction, Mark, MarkedBound};
use laco::store::PointId;

fn seg(px: f64, py: f64, qx: f64, qy: f64, p_id: usize, q_id: usize) -> EdgeHandle {
    EdgeHandle {
        geom: EdgeGeom::Seg { p: Point::new(px, py), q: Point::new(qx, qy) },
        p_id: PointId(p_id),
        q_id: PointId(q_id),
    }
}

fn triangle() -> Boundary {
    Boundary {
        edges: vec![
            seg(0.0, 0.0, 1.0, 0.0, 0, 1),
            seg(1.0, 0.0, 0.0, 1.0, 1, 2),
            seg(0.0, 1.0, 0.0, 0.0, 2, 0),
        ],
    }
}

#[test]
fn parse_constraint_accepts_the_three_axis_forms() {
    assert_eq!(
        Annotation::parse_constraint("x"),
        Some(Annotation::Constraint(true, false))
    );
    assert_eq!(
        Annotation::parse_constraint("y"),
        Some(Annotation::Constraint(false, true))
    );
    assert_eq!(
        Annotation::parse_constraint("xy"),
        Some(Annotation::Constraint(true, true))
    );
    assert_eq!(Annotation::parse_constraint("yx"), None);
    assert_eq!(Annotation::parse_constraint(""), None);
    assert_eq!(Annotation::parse_constraint("z"), None);
}

#[test]
fn a_default_mark_is_empty_and_unselected() {
    let m = Mark::default();
    assert_eq!(m.annot, Annotation::Empty);
    assert_eq!(m.inter, Interaction::Ignored);
    assert!(!m.is_clicked());
    assert!(!m.is_force());
    assert!(!m.is_constraint());
}

#[test]
fn clicking_and_annotating_update_the_mark() {
    let mut m = Mark::default();
    m.click();
    assert!(m.is_clicked());
    m.annotate(Annotation::Force("1.5".to_string(), "0".to_string()));
    assert!(m.is_force());
    assert!(!m.is_constraint());
    m.annotate(Annotation::Constraint(true, true));
    assert!(m.is_constraint());
    assert!(!m.is_force());
}

#[test]
fn from_bound_marks_every_edge_untouched() {
    let mb = MarkedBound::from_bound(triangle());
    assert_eq!(mb.marks.len(), 3);
    for m in &mb.marks {
        assert_eq!(m.annot, Annotation::Empty);
        assert_eq!(m.inter, Interaction::Ignored);
    }
}

#[test]
fn annotate_clicked_touches_only_the_selection() {
    let mut mb = MarkedBound::from_bound(triangle());
    mb.click_at(1);
    let touched = mb.annotate_clicked(Annotation::Constraint(true, false));
    assert_eq!(touched.len(), 1);
    assert_eq!(touched[0].0, mb.bound.edges[1]);
    assert_eq!(touched[0].1.annot, Annotation::Constraint(true, false));
    assert_eq!(mb.marks[0].annot, Annotation::Empty);
    assert_eq!(mb.marks[1].annot, Annotation::Constraint(true, false));
    assert_eq!(mb.marks[2].annot, Annotation::Empty);
}

#[test]
fn clear_interactions_deselects_but_keeps_annotations() {
    let mut mb = MarkedBound::from_bound(triangle());
    mb.click_at(0);
    mb.annotate_clicked(Annotation::Constraint(false, true));
    mb.clear_interactions();
    assert_eq!(mb.marks[0].inter, Interaction::Ignored);
    assert_eq!(mb.marks[0].annot, Annotation::Constraint(false, true));
}

#[test]
fn model_level_clicks_and_annotations_reach_the_right_boundary() {
    let mut model = laco::marks::MarkedModel(vec![
        MarkedBound::from_bound(triangle()),
        MarkedBound::from_bound(triangle()),
    ]);
    let (edge, m) = model.click_at(1, 2);
    assert_eq!(edge, model.0[1].bound.edges[2]);
    assert_eq!(m.inter, Interaction::Clicked);
    let touched = model.annotate_clicked(Annotation::Force("3".to_string(), "4".to_string()));
    assert_eq!(touched.len(), 1);
    assert_eq!(touched[0].0, model.0[1].bound.edges[2]);
    assert!(model.0[1].marks[2].is_force());
    assert!(!model.0[0].marks[2].is_force());
    model.clear_interactions();
    assert_eq!(model.0[1].marks[2].inter, Interaction::Ignored);
    assert!(model.0[1].marks[2].is_force());
}

#[test]
fn edges_and_marks_pairs_in_order() {
    let mut mb = MarkedBound::from_bound(triangle());
    mb.click_at(2);
    let pairs = mb.edges_and_marks();
    assert_eq!(pairs.len(), 3);
    for (i, (e, _)) in pairs.iter().enumerate() {
        assert_eq!(*e, mb.bound.edges[i]);
    }
    assert_eq!(pairs[2].1.inter, Interaction::Clicked);
    assert_eq!(pairs[0].1.inter, Interaction::Ignored);
}
