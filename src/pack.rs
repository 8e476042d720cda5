//! Placement directives: how one child is sized and where it goes.
use vstd::prelude::*;
use crate::geom::{Point, Rectangle, null_rect};

verus! {

/// Horizontal placement, with the outer margin kept free on each side.
#[derive(Clone, Copy, Debug, PartialEq, Eq, Structural)]
pub enum Align {
    Left(i32),
    Right(i32),
    Center,
}

/// Vertical placement, with the outer margin kept free above and below.
#[derive(Clone, Copy, Debug, PartialEq, Eq, Structural)]
pub enum VAlign {
    Top(i32),
    Bottom(i32),
    Center,
}

/// Sizing policy of a child.
#[derive(Clone, Copy, Debug, PartialEq, Eq, Structural)]
pub enum Pack {
    /// Exact size, narrowed to the space that is free.
    Fixed(Point),
    /// Percentages of the parent's width and height (100 is the whole parent, more is allowed).
    Percent(u32, u32),
    /// The whole of the region it is placed in.
    Fill,
}

/// The placement directive of one child.
#[derive(Clone, Copy, Debug, PartialEq, Eq, Structural)]
pub struct Position {
    /// Sizing policy.
    pub pack: Pack,
    /// Inner margin, subtracted corner by corner from the placed rectangle.
    pub margin: Rectangle,
    /// Horizontal position, with its outer margin.
    pub align: Align,
    /// Vertical position, with its outer margin.
    pub valign: VAlign,
}

pub open spec fn zero_rect() -> Rectangle {
    Rectangle { min: Point { x: 0, y: 0 }, max: Point { x: 0, y: 0 } }
}

/// A fixed-size directive with no margin at all.
pub open spec fn fixed_at(x: i32, y: i32, align: Align) -> Position {
    Position {
        pack: Pack::Fixed(Point { x, y }),
        margin: zero_rect(),
        align,
        valign: VAlign::Top(0),
    }
}

impl Position {
    /// An `a` by `a` square against the top-left corner.
    pub fn squared_top_left(a: i32) -> (r: Position)
        ensures
            r == fixed_at(a, a, Align::Left(0)),
    {
        Position {
            pack: Pack::Fixed(Point { x: a, y: a }),
            margin: null_rect(),
            align: Align::Left(0),
            valign: VAlign::Top(0),
        }
    }

    /// An `a` by `a` square against the top-right corner.
    pub fn squared_top_right(a: i32) -> (r: Position)
        ensures
            r == fixed_at(a, a, Align::Right(0)),
    {
        Position {
            pack: Pack::Fixed(Point { x: a, y: a }),
            margin: null_rect(),
            align: Align::Right(0),
            valign: VAlign::Top(0),
        }
    }

    /// An `x` by `y` box against the top-left corner.
    pub fn top_left(x: i32, y: i32) -> (r: Position)
        ensures
            r == fixed_at(x, y, Align::Left(0)),
    {
        Position {
            pack: Pack::Fixed(Point { x, y }),
            margin: null_rect(),
            align: Align::Left(0),
            valign: VAlign::Top(0),
        }
    }

    /// An `x` by `y` box against the top-right corner.
    pub fn top_right(x: i32, y: i32) -> (r: Position)
        ensures
            r == fixed_at(x, y, Align::Right(0)),
    {
        Position {
            pack: Pack::Fixed(Point { x, y }),
            margin: null_rect(),
            align: Align::Right(0),
            valign: VAlign::Top(0),
        }
    }

    /// The whole region that is left, taken from its top-left corner.
    pub fn filled_top_left() -> (r: Position)
        ensures
            r == (Position {
                pack: Pack::Fill,
                margin: zero_rect(),
                align: Align::Left(0),
                valign: VAlign::Top(0),
            }),
    {
        Position { pack: Pack::Fill, margin: null_rect(), align: Align::Left(0), valign: VAlign::Top(0) }
    }
}

} // verus!
