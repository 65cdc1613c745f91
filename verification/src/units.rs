//! Drawing units.
//!
//! The unit a drawing's coordinates are expressed in.  Exported geometry
//! is in meters; converting a coordinate into meters is numeric work that
//! belongs to the caller applying the export scale.

use vstd::prelude::*;

verus! {

/// A unit of length for drawing coordinates.
#[derive(Debug, Clone, Copy, PartialEq, Eq, Structural)]
pub enum Unit {
    Meter,
    Millimeter,
    Inch,
}

impl Unit {
    /// The unit's customary abbreviation.
    pub fn label(&self) -> (r: &'static str)
        ensures
            *self is Meter ==> r@ == "m"@,
            *self is Millimeter ==> r@ == "mm"@,
            *self is Inch ==> r@ == "in"@,
    {
        proof {
            reveal_strlit("m");
            reveal_strlit("mm");
            reveal_strlit("in");
        }
        match self {
            Unit::Meter => "m",
            Unit::Millimeter => "mm",
            Unit::Inch => "in",
        }
    }
}

impl Default for Unit {
    /// Coordinates are taken as meters unless said otherwise.
    fn default() -> (r: Unit)
        ensures
            r is Meter,
    {
        Unit::Meter
    }
}

} // verus!
