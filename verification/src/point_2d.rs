use vstd::prelude::*;

use crate::fixed_point_decimal::Dec;

verus! {

/// An immutable planar point with fixed-point decimal coordinates
/// (Web-Mercator metres, scaled by the decimal precision).
#[derive(Clone, Copy, PartialEq, Eq, Structural, Debug)]
pub struct Point2DDec {
    pub x: Dec,
    pub y: Dec,
}

impl Point2DDec {
    /// Both coordinates are canonical decimals.
    pub open spec fn wf(self) -> bool {
        self.x.wf() && self.y.wf()
    }

    /// The canonical origin, used to pad unused polygon slots.
    pub open spec fn spec_zero() -> Point2DDec {
        Point2DDec { x: Dec::spec_zero(), y: Dec::spec_zero() }
    }

    pub fn zero() -> (r: Point2DDec)
        ensures
            r == Point2DDec::spec_zero(),
    {
        Point2DDec { x: Dec::zero(), y: Dec::zero() }
    }
}

} // verus!
