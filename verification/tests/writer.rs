//! The export writer.

use kurbo::Point;

use laco::bound::Boundary;
use laco::edge::{EdgeGeom, EdgeHandle};
use dxf::entities::{Entity, EntityType, Line as DxfLine};
use laco::marks::{Annotation, Interaction, Mark, MarkedBound, MarkedModel};
use laco::model::PartModel;
use laco::store::PointId;
use laco::writer::{format_constraint, point_label, Writer};

fn fnv(s: &str) -> u64 {
    let mut h: u64 = 0xcbf29ce484222325;
    for b in s.bytes() {
        h = (h ^ b as u64).wrapping_mul(0x100000001b3);
    }
    h
}

fn label(s: &str) -> String {
    format!("{:x}", fnv(s))
}

fn seg(px: f64, py: f64, qx: f64, qy: f64, p_id: usize, q_id: usize) -> EdgeHandle {
    EdgeHandle {
        geom: EdgeGeom::Seg { p: Point::new(px, py), q: Point::new(qx, qy) },
        p_id: PointId(p_id),
        q_id: PointId(q_id),
    }
}

fn square() -> Boundary {
    Boundary {
        edges: vec![
            seg(0.0, 0.0, 1.0, 0.0, 0, 1),
            seg(1.0, 0.0, 1.0, 1.0, 1, 2),
            seg(1.0, 1.0, 0.0, 1.0, 2, 3),
            seg(0.0, 1.0, 0.0, 0.0, 3, 0),
        ],
    }
}

fn mark(annot: Annotation) -> Mark {
    Mark { annot, inter: Interaction::Ignored }
}

#[test]
fn point_label_is_the_fnv_digest_in_hex() {
    assert_eq!(point_label("0.00000 0.00000"), label("0.00000 0.00000"));
    assert_eq!(point_label(""), format!("{:x}", 0xcbf29ce484222325u64));
    assert_ne!(point_label("a"), point_label("b"));
}

#[test]
fn format_constraint_spells_the_axes() {
    assert_eq!(format_constraint((false, false)), "");
    assert_eq!(format_constraint((true, false)), "x");
    assert_eq!(format_constraint((false, true)), "y");
    assert_eq!(format_constraint((true, true)), "xy");
}

#[test]
fn unmarked_boundary_renders_as_a_plain_polygon() {
    let mut w = Writer::new();
    w.add_boundary(MarkedBound::from_bound(square()));
    let out = w.write("steel", "0.5");
    let expected = "polygon\n\
                    0.00000 0.00000\n\
                    1.00000 0.00000\n\
                    1.00000 1.00000\n\
                    0.00000 1.00000\n\
                    end\n\
                    thickness 0.5\n\
                    material steel";
    assert_eq!(out, expected);
}

#[test]
fn annotated_edges_label_their_vertices_and_append_lines() {
    let marks = vec![
        mark(Annotation::Force("1".to_string(), "2".to_string())),
        mark(Annotation::Empty),
        mark(Annotation::Constraint(true, true)),
        mark(Annotation::Empty),
    ];
    let mb = MarkedBound { bound: square(), marks };
    let mut w = Writer::new();
    w.add_boundary(mb);
    let out = w.write("oak", "2");
    let l0 = label("0.00000 0.00000");
    let l1 = label("1.00000 0.00000");
    let l2 = label("1.00000 1.00000");
    let l3 = label("0.00000 1.00000");
    let expected = format!(
        "polygon\n\
         0.00000 0.00000 {l0}\n\
         1.00000 0.00000 {l1}\n\
         1.00000 1.00000 {l2}\n\
         0.00000 1.00000 {l3}\n\
         end\n\
         thickness 2\n\
         material oak\n\
         distributed_constraint {l2} {l3} xy\n\
         distributed_force {l0} {l1} 1 2"
    );
    assert_eq!(out, expected);
}

#[test]
fn the_last_edge_wraps_to_the_first_vertex() {
    let marks = vec![
        mark(Annotation::Empty),
        mark(Annotation::Empty),
        mark(Annotation::Empty),
        mark(Annotation::Constraint(false, true)),
    ];
    let mb = MarkedBound { bound: square(), marks };
    let mut w = Writer::new();
    w.add_boundary(mb);
    let out = w.write("m", "1");
    let l3 = label("0.00000 1.00000");
    let l0 = label("0.00000 0.00000");
    let expected = format!(
        "polygon\n\
         0.00000 0.00000 {l0}\n\
         1.00000 0.00000\n\
         1.00000 1.00000\n\
         0.00000 1.00000 {l3}\n\
         end\n\
         thickness 1\n\
         material m\n\
         distributed_constraint {l3} {l0} y"
    );
    assert_eq!(out, expected);
}

#[test]
fn a_reconstructed_model_exports_one_block_per_boundary() {
    let line = |x1: f64, y1: f64, x2: f64, y2: f64| {
        Entity::new(EntityType::Line(DxfLine::new(
            dxf::Point::new(x1, y1, 0.0),
            dxf::Point::new(x2, y2, 0.0),
        )))
    };
    let ents = vec![
        line(0.0, 0.0, 4.0, 0.0),
        line(4.0, 0.0, 4.0, 4.0),
        line(4.0, 4.0, 0.0, 4.0),
        line(0.0, 4.0, 0.0, 0.0),
        line(1.0, 1.0, 1.0, 3.0),
        line(1.0, 3.0, 3.0, 3.0),
        line(3.0, 3.0, 3.0, 1.0),
        line(3.0, 1.0, 1.0, 1.0),
    ];
    let (model, _) = PartModel::reconstruct(&ents).unwrap();
    let marked = MarkedModel::from_model(model);
    let mut w = Writer::new();
    for mb in marked.bounds() {
        w.add_boundary(MarkedBound {
            bound: mb.bound.duplicate(),
            marks: mb.marks.clone(),
        });
    }
    let out = w.write("steel", "0.5");
    assert_eq!(out.matches("polygon\n").count(), 2);
    assert!(out.contains("4.00000 4.00000\n"));
    assert!(out.contains("3.00000 1.00000\n"));
    assert!(out.ends_with("thickness 0.5\nmaterial steel"));
}

#[test]
fn two_boundaries_render_two_polygon_blocks() {
    let mut w = Writer::new();
    w.add_boundary(MarkedBound::from_bound(square()));
    let tri = Boundary {
        edges: vec![
            seg(2.0, 2.0, 3.0, 2.0, 4, 5),
            seg(3.0, 2.0, 2.0, 3.0, 5, 6),
            seg(2.0, 3.0, 2.0, 2.0, 6, 4),
        ],
    };
    w.add_boundary(MarkedBound::from_bound(tri));
    let out = w.write("steel", "0.5");
    assert_eq!(out.matches("polygon\n").count(), 2);
    assert_eq!(out.matches("end\n").count(), 2);
    assert!(out.contains("2.00000 3.00000\n"));
}
