use vstd::prelude::*;

verus! {

/// A point of the plane in the fixed-point coordinates the rasterizer bins.
///
/// A coordinate is a plain integer; the caller that produces trajectory
/// points picks the quantization scale.  The rasterizer only compares
/// coordinates and takes their differences, so any uniform positive scale
/// gives the same grid.
#[derive(Clone, Copy, Debug, PartialEq, Eq, Structural)]
pub struct Point {
    pub x: i64,
    pub y: i64,
}

impl Point {
    pub open spec fn spec_new(x: i64, y: i64) -> Point {
        Point { x, y }
    }

    #[verifier::when_used_as_spec(spec_new)]
    pub fn new(x: i64, y: i64) -> (p: Point)
        ensures
            p == (Point { x, y }),
    {
        Point { x, y }
    }
}

} // verus!
