use vstd::prelude::*;

use crate::motion::Rect;
use crate::units::SUBPIXELS;

verus! {

/// Default playfield width, in pixels.
pub const DEFAULT_WIDTH: u32 = 600;

/// Default playfield height, in pixels.
pub const DEFAULT_HEIGHT: u32 = 800;

/// The playfield's size, in whole pixels; its top-left corner is the origin.
#[derive(Copy, Clone, PartialEq, Eq, Structural, Debug)]
pub struct UI {
    pub width: u32,
    pub height: u32,
}

impl UI {
    pub open spec fn spec_hitbox(self) -> Rect {
        Rect { x: 0, y: 0, w: (self.width * SUBPIXELS) as i64, h: (self.height * SUBPIXELS) as i64 }
    }

    pub fn new(width: u32, height: u32) -> (r: Self)
        ensures
            r.width == width,
            r.height == height,
    {
        UI { width: width, height: height }
    }

    /// The playfield as a rectangle, in eighths of a pixel.
    pub fn hitbox_rect(&self) -> (r: Rect)
        ensures
            r == self.spec_hitbox(),
    {
        Rect::new(0, 0, self.width as i64 * SUBPIXELS, self.height as i64 * SUBPIXELS)
    }
}

impl Default for UI {
    fn default() -> (r: Self)
        ensures
            r.width == DEFAULT_WIDTH,
            r.height == DEFAULT_HEIGHT,
    {
        UI { width: DEFAULT_WIDTH, height: DEFAULT_HEIGHT }
    }
}

} // verus!
