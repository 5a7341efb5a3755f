use std::marker::PhantomData;

use vstd::prelude::*;

use crate::units::{Pixels, PixelsPerMs};

verus! {

/// `v` held within the range of `i64`.
pub open spec fn saturate(v: int) -> int {
    if v < i64::MIN {
        i64::MIN as int
    } else if v > i64::MAX {
        i64::MAX as int
    } else {
        v
    }
}

/// The coordinate `x` moved by `d`, held within the range of `i64`.
pub fn advance(x: i64, d: i64) -> (r: i64)
    ensures
        r == saturate(x + d),
{
    let s: i128 = x as i128 + d as i128;
    if s < i64::MIN as i128 {
        i64::MIN
    } else if s > i64::MAX as i128 {
        i64::MAX
    } else {
        s as i64
    }
}

#[derive(Copy, Clone, PartialEq, Eq, Debug)]
pub struct Position<U: Copy> {
    pub x: U,
    pub y: U,
}

#[derive(Copy, Clone, PartialEq, Eq, Debug)]
pub struct Dimensions<U: Copy> {
    pub width: U,
    pub height: U,
}

/// The directions of the arrow keys, or none of them.
#[derive(Copy, Clone, PartialEq, Eq, Structural, Debug)]
pub enum Direction {
    Up,
    Down,
    Left,
    Right,
    Stationary,
}

/// Motion at a fixed, signed rate in the unit `U`.
pub struct Velocity<U> {
    pub(crate) rate: i32,
    pub(crate) unit: PhantomData<U>,
}

/// An axis-aligned rectangle: its top-left corner, width and height.
#[derive(Copy, Clone, PartialEq, Eq, Structural, Debug)]
pub struct Rect {
    pub x: i64,
    pub y: i64,
    pub w: i64,
    pub h: i64,
}

/// An entity that occupies a place on the playfield.
pub trait Object<U: Copy> {
    spec fn spec_position(&self) -> Position<U>;

    spec fn spec_dimensions(&self) -> Dimensions<U>;

    fn position(&self) -> (r: Position<U>)
        ensures
            r == self.spec_position(),
    ;

    fn dimensions(&self) -> (r: Dimensions<U>)
        ensures
            r == self.spec_dimensions(),
    ;
}

/// An entity that moves on its own, one axis at a time, at a rate per
/// millisecond along each.
pub trait Acceleration<U> {
    spec fn spec_horizontal_rate(&self) -> int;

    spec fn spec_vertical_rate(&self) -> int;

    fn horizontal_velocity(&self, elapsed: u32) -> (r: Velocity<U>)
        ensures
            r.spec_rate() == self.spec_horizontal_rate(),
    ;

    fn vertical_velocity(&self, elapsed: u32) -> (r: Velocity<U>)
        ensures
            r.spec_rate() == self.spec_vertical_rate(),
    ;
}

impl Direction {
    pub open spec fn spec_is_horizontal(self) -> bool {
        self == Direction::Left || self == Direction::Right
    }

    pub open spec fn spec_is_vertical(self) -> bool {
        self == Direction::Down || self == Direction::Up
    }

    pub fn is_horizontal(&self) -> (r: bool)
        ensures
            r == self.spec_is_horizontal(),
    {
        *self == Direction::Left || *self == Direction::Right
    }

    pub fn is_vertical(&self) -> (r: bool)
        ensures
            r == self.spec_is_vertical(),
    {
        *self == Direction::Down || *self == Direction::Up
    }
}

impl<U> Velocity<U> {
    /// Units covered each millisecond; negative toward the origin.
    pub open(crate) spec fn spec_rate(self) -> int {
        self.rate as int
    }
}

impl<U: Copy> Velocity<U> {
    /// A velocity of `rate` units each millisecond.
    pub fn new(rate: i32) -> (r: Self)
        ensures
            r.spec_rate() == rate,
    {
        Velocity { rate, unit: PhantomData }
    }
}

impl Velocity<PixelsPerMs> {
    /// The distance covered at this velocity in `elapsed` milliseconds:
    /// the rate times the time, exactly.
    pub fn distance(&self, elapsed: u32) -> (r: Pixels)
        ensures
            r.0 == self.spec_rate() * elapsed,
    {
        let rate: i64 = self.rate as i64;
        let ms: i64 = elapsed as i64;
        assert(-0x8000_0000_0000_0000 <= rate * ms <= 0x7fff_ffff_ffff_ffff) by (nonlinear_arith)
            requires
                -0x8000_0000 <= rate <= 0x7fff_ffff,
                0 <= ms <= 0xffff_ffff,
        ;
        Pixels(rate * ms)
    }
}

impl<U: Copy> Position<U> {
    pub fn new(x: U, y: U) -> (r: Self)
        ensures
            r.x == x,
            r.y == y,
    {
        Position { x: x, y: y }
    }
}

impl<U: Copy> Dimensions<U> {
    pub fn new(width: U, height: U) -> (r: Self)
        ensures
            r.width == width,
            r.height == height,
    {
        Dimensions { width: width, height: height }
    }
}

/// Whether the spans `[a, a + a_len)` and `[b, b + b_len)` share a stretch of
/// positive length.
pub open spec fn spans_overlap(a: int, a_len: int, b: int, b_len: int) -> bool {
    a < b + b_len && b < a + a_len
}

/// The rectangle that an entity at `pos` with size `dim` covers.
pub open spec fn hitbox(pos: Position<Pixels>, dim: Dimensions<Pixels>) -> Rect {
    Rect { x: pos.x.0, y: pos.y.0, w: dim.width.0, h: dim.height.0 }
}

impl Rect {
    /// Whether the two rectangles share an area of positive size; rectangles
    /// that only touch at an edge do not.
    pub open spec fn spec_overlaps(self, other: Rect) -> bool {
        spans_overlap(self.x as int, self.w as int, other.x as int, other.w as int)
            && spans_overlap(self.y as int, self.h as int, other.y as int, other.h as int)
    }

    pub fn new(x: i64, y: i64, w: i64, h: i64) -> (r: Self)
        ensures
            r == (Rect { x, y, w, h }),
    {
        Rect { x, y, w, h }
    }

    /// The rectangle covered by an entity at `pos` with size `dim`.
    pub fn of(pos: Position<Pixels>, dim: Dimensions<Pixels>) -> (r: Self)
        ensures
            r == hitbox(pos, dim),
    {
        Rect { x: pos.x.0, y: pos.y.0, w: dim.width.0, h: dim.height.0 }
    }

    pub fn overlaps(&self, other: &Rect) -> (r: bool)
        ensures
            r == self.spec_overlaps(*other),
    {
        let left: i128 = self.x as i128;
        let top: i128 = self.y as i128;
        let other_left: i128 = other.x as i128;
        let other_top: i128 = other.y as i128;
        left < other_left + other.w as i128 && other_left < left + self.w as i128 && top
            < other_top + other.h as i128 && other_top < top + self.h as i128
    }
}

} // verus!
