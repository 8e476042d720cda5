//! Integer points and axis-aligned rectangles.
use vstd::prelude::*;

verus! {

/// A point (or a size) with integer coordinates.
#[derive(Clone, Copy, Debug, PartialEq, Eq, Structural)]
pub struct Point {
    pub x: i32,
    pub y: i32,
}

/// An axis-aligned box given by its top-left (`min`) and bottom-right (`max`) corners.
#[derive(Clone, Copy, Debug, PartialEq, Eq, Structural)]
pub struct Rectangle {
    pub min: Point,
    pub max: Point,
}

/// The empty rectangle at the origin.
pub fn null_rect() -> (r: Rectangle)
    ensures
        r == (Rectangle { min: Point { x: 0, y: 0 }, max: Point { x: 0, y: 0 } }),
{
    Rectangle { min: Point { x: 0, y: 0 }, max: Point { x: 0, y: 0 } }
}

/// Saturates an integer into the range of `i32`.
pub open spec fn clamp32(v: int) -> int {
    if v < i32::MIN {
        i32::MIN as int
    } else if v > i32::MAX {
        i32::MAX as int
    } else {
        v
    }
}

pub open spec fn pt(x: int, y: int) -> Point {
    Point { x: clamp32(x) as i32, y: clamp32(y) as i32 }
}

/// The rectangle with the given corner coordinates, each saturated into `i32`.
pub open spec fn rect_of(x0: int, y0: int, x1: int, y1: int) -> Rectangle {
    Rectangle { min: pt(x0, y0), max: pt(x1, y1) }
}

impl Rectangle {
    pub open spec fn w(self) -> int {
        self.max.x - self.min.x
    }

    pub open spec fn h(self) -> int {
        self.max.y - self.min.y
    }

    /// Corners in order: no negative extent.
    pub open spec fn wf(self) -> bool {
        self.min.x <= self.max.x && self.min.y <= self.max.y
    }

    /// Strictly positive width and height.
    pub open spec fn has_area(self) -> bool {
        self.w() > 0 && self.h() > 0
    }

    /// `other` lies inside `self`, corner by corner.
    pub open spec fn contains(self, other: Rectangle) -> bool {
        self.min.x <= other.min.x && other.max.x <= self.max.x && self.min.y <= other.min.y
            && other.max.y <= self.max.y
    }

    /// The two rectangles share a region of positive area.
    pub open spec fn overlaps(self, other: Rectangle) -> bool {
        &&& max_int(self.min.x as int, other.min.x as int) < min_int(self.max.x as int, other.max.x as int)
        &&& max_int(self.min.y as int, other.min.y as int) < min_int(self.max.y as int, other.max.y as int)
    }

    /// Corner-wise difference `self - m`, as used to apply an inner margin.
    pub open spec fn minus(self, m: Rectangle) -> Rectangle {
        rect_of(
            self.min.x - m.min.x,
            self.min.y - m.min.y,
            self.max.x - m.max.x,
            self.max.y - m.max.y,
        )
    }

    /// Width, as a signed value (negative for corners out of order).
    pub fn width(&self) -> (r: i64)
        ensures
            r == self.w(),
    {
        self.max.x as i64 - self.min.x as i64
    }

    /// Height, as a signed value (negative for corners out of order).
    pub fn height(&self) -> (r: i64)
        ensures
            r == self.h(),
    {
        self.max.y as i64 - self.min.y as i64
    }

    /// The overlap of two rectangles, when it has positive area.
    pub fn intersection(&self, other: &Rectangle) -> (r: Option<Rectangle>)
        ensures
            r == (if self.overlaps(*other) {
                Some(intersection_of(*self, *other))
            } else {
                None
            }),
    {
        let x0 = if self.min.x >= other.min.x { self.min.x } else { other.min.x };
        let y0 = if self.min.y >= other.min.y { self.min.y } else { other.min.y };
        let x1 = if self.max.x <= other.max.x { self.max.x } else { other.max.x };
        let y1 = if self.max.y <= other.max.y { self.max.y } else { other.max.y };
        if x0 < x1 && y0 < y1 {
            Some(Rectangle { min: Point { x: x0, y: y0 }, max: Point { x: x1, y: y1 } })
        } else {
            None
        }
    }

    /// Whether the point lies in the rectangle (min edges included, max edges excluded).
    pub fn includes(&self, p: Point) -> (r: bool)
        ensures
            r == (self.min.x <= p.x < self.max.x && self.min.y <= p.y < self.max.y),
    {
        self.min.x <= p.x && p.x < self.max.x && self.min.y <= p.y && p.y < self.max.y
    }
}

pub open spec fn max_int(a: int, b: int) -> int {
    if a >= b { a } else { b }
}

pub open spec fn min_int(a: int, b: int) -> int {
    if a <= b { a } else { b }
}

pub open spec fn intersection_of(a: Rectangle, b: Rectangle) -> Rectangle {
    rect_of(
        max_int(a.min.x as int, b.min.x as int),
        max_int(a.min.y as int, b.min.y as int),
        min_int(a.max.x as int, b.max.x as int),
        min_int(a.max.y as int, b.max.y as int),
    )
}

/// Saturates a wide integer into `i32`.
pub fn clamp_i32(v: i64) -> (r: i32)
    ensures
        r == clamp32(v as int),
{
    if v < i32::MIN as i64 {
        i32::MIN
    } else if v > i32::MAX as i64 {
        i32::MAX
    } else {
        v as i32
    }
}

/// The rectangle with the given corners, each saturated into `i32`.
pub fn rect_from(x0: i64, y0: i64, x1: i64, y1: i64) -> (r: Rectangle)
    ensures
        r == rect_of(x0 as int, y0 as int, x1 as int, y1 as int),
{
    Rectangle {
        min: Point { x: clamp_i32(x0), y: clamp_i32(y0) },
        max: Point { x: clamp_i32(x1), y: clamp_i32(y1) },
    }
}

} // verus!
