use vstd::prelude::*;

verus! {

/// Units of distance in one pixel. Distances are held in eighths of a pixel,
/// fine enough that every speed in the game covers a whole number of units
/// each millisecond, so motion is exact for ticks of any length.
pub const SUBPIXELS: i64 = 8;

/// A distance on the playfield, in eighths of a pixel (`SUBPIXELS` to the
/// pixel).
#[derive(Copy, Clone, PartialEq, Eq, Structural, Debug)]
pub struct Pixels(pub i64);

/// The unit of a velocity: distance units (eighths of a pixel) covered per
/// millisecond.
#[derive(Copy, Clone, PartialEq, Eq, Structural, Debug)]
pub struct PixelsPerMs;

impl Pixels {
    /// The distance of `px` whole pixels.
    pub fn whole(px: i32) -> (r: Pixels)
        ensures
            r.0 == px * SUBPIXELS,
    {
        Pixels(px as i64 * SUBPIXELS)
    }

    /// The distance, in eighths of a pixel.
    pub fn value(&self) -> (r: i64)
        ensures
            r == self.0,
    {
        self.0
    }
}

} // verus!
