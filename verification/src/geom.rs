//! The geometry kernel boundary.
//!
//! Coordinates are 2D points of the `kurbo` kernel, held opaquely: the
//! reconstruction logic never reads a coordinate, it only asks the kernel
//! the few numeric questions it needs (here, the distance between two
//! points, rendered as a decimal numeral) and reasons over named results.

use vstd::prelude::*;
use vstd::string::StringSliceAdditionalSpecFns;

use kurbo::Shape;

use crate::tol;

verus! {

#[verifier::external_type_specification]
#[verifier::external_body]
pub struct ExPoint(kurbo::Point);

#[verifier::external_type_specification]
#[verifier::external_body]
pub struct ExArc(kurbo::Arc);

#[verifier::external_type_specification]
#[verifier::external_body]
pub struct ExBezPath(kurbo::BezPath);

#[verifier::external_type_specification]
#[verifier::external_body]
pub struct ExEntity(dxf::entities::Entity);

#[verifier::external_type_specification]
#[verifier::external_body]
pub struct ExDxfLine(dxf::entities::Line);

#[verifier::external_type_specification]
#[verifier::external_body]
pub struct ExDxfArc(dxf::entities::Arc);

/// A drawing entity as the reconstruction sees it: a line primitive, an arc
/// primitive, or something this crate does not reconstruct (carrying a
/// description of the unsupported kind, for diagnostics).
pub enum Prim {
    Line(dxf::entities::Line),
    Arc(dxf::entities::Arc),
    Other(String),
}

/// The classification of a drawing entity: which primitive its entity data
/// holds.
pub uninterp spec fn prim_of(e: dxf::entities::Entity) -> Prim;

/// Relies on `dxf::entities::Entity`: its `specific` field holds the typed
/// entity data, one enum variant per entity kind; the variants other than
/// lines and arcs are reported by their debug rendering.
#[verifier::external_body]
pub fn classify_entity(e: &dxf::entities::Entity) -> (r: Prim)
    ensures
        r == prim_of(*e),
{
    match &e.specific {
        dxf::entities::EntityType::Line(l) => Prim::Line(l.clone()),
        dxf::entities::EntityType::Arc(a) => Prim::Arc(a.clone()),
        x => Prim::Other(format!("{:?}", x)),
    }
}

/// The first endpoint of a line primitive, as a kernel point.
pub uninterp spec fn line_start_of(l: dxf::entities::Line) -> kurbo::Point;

/// Relies on `dxf::entities::Line`: `p1` is the line's first endpoint; its
/// `z` component is dropped, as inputs are coplanar.
#[verifier::external_body]
pub fn line_start(l: &dxf::entities::Line) -> (r: kurbo::Point)
    ensures
        r == line_start_of(*l),
{
    kurbo::Point::new(l.p1.x, l.p1.y)
}

/// The second endpoint of a line primitive, as a kernel point.
pub uninterp spec fn line_end_of(l: dxf::entities::Line) -> kurbo::Point;

/// Relies on `dxf::entities::Line`: `p2` is the line's second endpoint; its
/// `z` component is dropped, as inputs are coplanar.
#[verifier::external_body]
pub fn line_end(l: &dxf::entities::Line) -> (r: kurbo::Point)
    ensures
        r == line_end_of(*l),
{
    kurbo::Point::new(l.p2.x, l.p2.y)
}

/// Whether an arc primitive lies in the drawing plane: its normal is the
/// standard forward axis.
pub uninterp spec fn arc_planar(a: dxf::entities::Arc) -> bool;

/// Relies on `dxf::entities::Arc::normal` and `dxf::Vector::z_axis`: the
/// comparison is the component-wise equality of the two vectors.
#[verifier::external_body]
pub fn arc_is_planar(a: &dxf::entities::Arc) -> (r: bool)
    ensures
        r == arc_planar(*a),
{
    a.normal == dxf::Vector::z_axis()
}

/// The point where an arc primitive starts: on the circle of its center
/// and radius, at its start angle.
pub uninterp spec fn arc_start_of(a: dxf::entities::Arc) -> kurbo::Point;

/// Relies on `dxf::entities::Arc` (center, radius, start angle in degrees)
/// and on `kurbo::Vec2::from_angle`: the start point is
/// center + radius * (cos, sin) of the start angle.
#[verifier::external_body]
pub fn arc_start(a: &dxf::entities::Arc) -> (r: kurbo::Point)
    ensures
        r == arc_start_of(*a),
{
    kurbo::Point::new(a.center.x, a.center.y)
        + kurbo::Vec2::from_angle(a.start_angle.to_radians()) * a.radius
}

/// The point where an arc primitive ends: on the circle of its center and
/// radius, at its end angle.
pub uninterp spec fn arc_end_of(a: dxf::entities::Arc) -> kurbo::Point;

/// Relies on `dxf::entities::Arc` (center, radius, end angle in degrees)
/// and on `kurbo::Vec2::from_angle`: the end point is
/// center + radius * (cos, sin) of the end angle.
#[verifier::external_body]
pub fn arc_end(a: &dxf::entities::Arc) -> (r: kurbo::Point)
    ensures
        r == arc_end_of(*a),
{
    kurbo::Point::new(a.center.x, a.center.y)
        + kurbo::Vec2::from_angle(a.end_angle.to_radians()) * a.radius
}

/// The kernel curve of an arc primitive: the circular arc walked
/// counter-clockwise from the start angle to the end angle.
pub uninterp spec fn arc_curve_of(a: dxf::entities::Arc) -> kurbo::Arc;

/// Relies on `dxf::entities::Arc` (angles in degrees, walked
/// counter-clockwise per the drawing convention) and on `kurbo::Arc`
/// (start angle and sweep in radians): the sweep is the end angle minus
/// the start angle, brought into one counter-clockwise turn.
#[verifier::external_body]
pub fn arc_curve(a: &dxf::entities::Arc) -> (r: kurbo::Arc)
    ensures
        r == arc_curve_of(*a),
{
    kurbo::Arc {
        center: kurbo::Point::new(a.center.x, a.center.y),
        radii: kurbo::Vec2::new(a.radius, a.radius),
        start_angle: a.start_angle.to_radians(),
        sweep_angle: (a.end_angle - a.start_angle).rem_euclid(360i16.into()).to_radians(),
        x_rotation: 0i16.into(),
    }
}

/// The distance between `a` and `b`, as the decimal numeral that the
/// kernel's `f64` distance prints as.
pub uninterp spec fn dist_text_of(a: kurbo::Point, b: kurbo::Point) -> Seq<u8>;

/// Relies on `kurbo::Point::distance` (Euclidean distance) and on `Display`
/// for `f64` (a plain decimal numeral for every finite non-negative value);
/// the result is a function of the two points alone.
#[verifier::external_body]
fn dist_text(a: &kurbo::Point, b: &kurbo::Point) -> (r: Vec<u8>)
    ensures
        r@ == dist_text_of(*a, *b),
{
    format!("{}", a.distance(*b)).into_bytes()
}

/// A path begun at `p`: a move to `p` and nothing else.
pub uninterp spec fn path_begin_of(p: kurbo::Point) -> kurbo::BezPath;

/// Relies on `kurbo::BezPath::from_vec` and `kurbo::PathEl::MoveTo`: the
/// path holding a single move to `p`.
#[verifier::external_body]
pub fn path_begin(p: &kurbo::Point) -> (r: kurbo::BezPath)
    ensures
        r == path_begin_of(*p),
{
    kurbo::BezPath::from_vec(vec![kurbo::PathEl::MoveTo(*p)])
}

/// `path` extended by a straight line to `p`.
pub uninterp spec fn path_line_of(path: kurbo::BezPath, p: kurbo::Point) -> kurbo::BezPath;

/// Relies on `kurbo::BezPath::line_to`: appends a line from the path's
/// current endpoint to `p`.
#[verifier::external_body]
pub fn path_line(path: &mut kurbo::BezPath, p: &kurbo::Point)
    ensures
        *final(path) == path_line_of(*old(path), *p),
{
    path.line_to(*p);
}

/// `path` extended by the arc `arc`, walked backwards when `rev` holds.
pub uninterp spec fn path_arc_of(path: kurbo::BezPath, arc: kurbo::Arc, rev: bool) -> kurbo::BezPath;

/// Relies on `kurbo::Arc::reversed` (the same locus swept the other way)
/// and `kurbo::Arc::append_iter` (the arc as curve elements continuing an
/// existing path, within the accuracy passed, here a millionth of a
/// drawing unit).
#[verifier::external_body]
pub fn path_arc(path: &mut kurbo::BezPath, arc: &kurbo::Arc, rev: bool)
    ensures
        *final(path) == path_arc_of(*old(path), *arc, rev),
{
    let walked = if rev {
        arc.reversed()
    } else {
        *arc
    };
    path.extend(walked.append_iter("0.000001".parse().unwrap()));
}

/// `path` with its current subpath closed.
pub uninterp spec fn path_close_of(path: kurbo::BezPath) -> kurbo::BezPath;

/// Relies on `kurbo::BezPath::close_path`: appends a closing element to
/// the path.
#[verifier::external_body]
pub fn path_close(path: &mut kurbo::BezPath)
    ensures
        *final(path) == path_close_of(*old(path)),
{
    path.close_path();
}

/// The signed area of a closed path, as the decimal numeral its `f64`
/// value prints as (a leading minus sign for negative winding).
pub uninterp spec fn area_text_of(path: kurbo::BezPath) -> Seq<u8>;

/// Relies on `kurbo::Shape::area` for `kurbo::BezPath` (the signed area,
/// positive for counter-clockwise winding in a y-up plane) and on
/// `Display` for `f64`; the result is a function of the path alone.
#[verifier::external_body]
pub fn path_area_text(path: &kurbo::BezPath) -> (r: Vec<u8>)
    ensures
        r@ == area_text_of(*path),
{
    format!("{}", path.area()).into_bytes()
}

/// Whether `p` lies inside the region a closed path encloses.
pub uninterp spec fn path_contains_of(path: kurbo::BezPath, p: kurbo::Point) -> bool;

/// Relies on `kurbo::Shape::contains` for `kurbo::BezPath`: containment
/// by the non-zero winding rule.
#[verifier::external_body]
pub fn path_contains(path: &kurbo::BezPath, p: &kurbo::Point) -> (r: bool)
    ensures
        r == path_contains_of(*path, *p),
{
    path.contains(*p)
}

/// A point's export text: its two coordinates to five decimal places,
/// separated by a space.
pub uninterp spec fn point_text_of(p: kurbo::Point) -> Seq<char>;

/// Relies on `kurbo::Point` (plain `x` and `y` fields) and on fixed-point
/// `Display` formatting of `f64`; the text is a function of the point
/// alone, and is plain ASCII (digits, sign, point, space), so its bytes
/// are its characters.
#[verifier::external_body]
pub fn point_text(p: &kurbo::Point) -> (r: String)
    ensures
        r@ == point_text_of(*p),
        vstd::utf8::is_ascii_chars(r@),
{
    format!("{:.5} {:.5}", p.x, p.y)
}

/// Two coordinates resolve to one point identity: their distance is
/// strictly below the drawing tolerance of one millionth of a unit.
pub open spec fn near(stored: kurbo::Point, probe: kurbo::Point) -> bool {
    tol::lt_micro(dist_text_of(stored, probe))
}

/// Decides `near` by asking the kernel for the distance numeral.
pub fn points_near(stored: &kurbo::Point, probe: &kurbo::Point) -> (r: bool)
    ensures
        r == near(*stored, *probe),
{
    let t = dist_text(stored, probe);
    tol::lt_micro_exec(t.as_slice())
}

} // verus!
