//! Units and failure descriptions.

use laco::err::ReconError;
use laco::units::Unit;

#[test]
fn unit_labels_are_the_customary_abbreviations() {
    assert_eq!(Unit::Meter.label(), "m");
    assert_eq!(Unit::Millimeter.label(), "mm");
    assert_eq!(Unit::Inch.label(), "in");
    assert_eq!(Unit::default(), Unit::Meter);
}

#[test]
fn each_failure_has_a_description() {
    assert_eq!(ReconError::NonPlanarArc.describe(), "non-planar arc");
    assert_eq!(ReconError::DanglingEdge.describe(), "dangling edge");
    assert_eq!(
        ReconError::NoEnclosingBoundary.describe(),
        "no enclosing boundary"
    );
}
