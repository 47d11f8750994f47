//! Areas of the screen.

use vstd::prelude::*;

verus! {

/// An area of the screen, in cells.
#[derive(Debug, Clone, Copy, PartialEq, Eq, Structural)]
pub struct Rect {
    pub x: u16,
    pub y: u16,
    pub width: u16,
    pub height: u16,
}

/// The larger of a difference and nought.
pub open spec fn minus(a: int, b: int) -> int {
    if a > b {
        a - b
    } else {
        0
    }
}

pub open spec fn least(a: int, b: int) -> int {
    if a < b {
        a
    } else {
        b
    }
}

pub open spec fn most(a: int, b: int) -> int {
    if a > b {
        a
    } else {
        b
    }
}

impl Rect {
    /// The area lies on the screen: its edges are cells.
    pub open spec fn fits(self) -> bool {
        self.x + self.width <= u16::MAX && self.y + self.height <= u16::MAX
    }

    /// The cell at a column and a row lies in the area.
    pub open spec fn has_cell(self, column: int, row: int) -> bool {
        self.x <= column < self.x + self.width && self.y <= row < self.y + self.height
    }

    /// The area lies in another.
    pub open spec fn within(self, outer: Rect) -> bool {
        &&& outer.x <= self.x
        &&& outer.y <= self.y
        &&& self.x + self.width <= outer.x + outer.width
        &&& self.y + self.height <= outer.y + outer.height
    }

    /// The column behind the area, at most the last there is.
    pub open spec fn right_edge(self) -> int {
        least(self.x + self.width, u16::MAX as int)
    }

    /// The row below the area, at most the last there is.
    pub open spec fn bottom_edge(self) -> int {
        least(self.y + self.height, u16::MAX as int)
    }

    /// The area without a margin at every side; nothing where the margins leave no
    /// room.
    pub open spec fn without_margin(self, horizontal: int, vertical: int) -> Rect {
        let both_h = least(2 * horizontal, u16::MAX as int);
        let both_v = least(2 * vertical, u16::MAX as int);
        if self.width < both_h || self.height < both_v {
            Rect { x: 0, y: 0, width: 0, height: 0 }
        } else {
            Rect {
                x: least(self.x + horizontal, u16::MAX as int) as u16,
                y: least(self.y + vertical, u16::MAX as int) as u16,
                width: (self.width - both_h) as u16,
                height: (self.height - both_v) as u16,
            }
        }
    }

    /// The area inside a border of one cell on every side.
    pub open spec fn inside_border(self) -> Rect {
        Rect {
            x: least(self.x + 1, self.right_edge()) as u16,
            y: least(self.y + 1, self.bottom_edge()) as u16,
            width: minus(self.width as int, 2) as u16,
            height: minus(self.height as int, 2) as u16,
        }
    }

    pub fn contains(self, column: u16, row: u16) -> (r: bool)
        ensures
            r == self.has_cell(column as int, row as int),
    {
        self.x <= column && (column as u32) < self.x as u32 + self.width as u32 && self.y <= row && (
        row as u32) < self.y as u32 + self.height as u32
    }

    pub fn right(self) -> (r: u16)
        ensures
            r == self.right_edge(),
    {
        if self.width <= u16::MAX - self.x {
            self.x + self.width
        } else {
            u16::MAX
        }
    }

    /// The area inside a border of one cell on every side.
    pub fn framed(self) -> (r: Rect)
        ensures
            r == self.inside_border(),
    {
        let right: u16 = plus(self.x, self.width);
        let bottom: u16 = plus(self.y, self.height);
        let x: u16 = plus(self.x, 1);
        let y: u16 = plus(self.y, 1);
        Rect {
            x: if x < right {
                x
            } else {
                right
            },
            y: if y < bottom {
                y
            } else {
                bottom
            },
            width: less(self.width, 2),
            height: less(self.height, 2),
        }
    }

    /// The area without a margin at every side.
    pub fn inner(self, horizontal: u16, vertical: u16) -> (r: Rect)
        ensures
            r == self.without_margin(horizontal as int, vertical as int),
    {
        let both_h: u16 = plus(horizontal, horizontal);
        let both_v: u16 = plus(vertical, vertical);
        if self.width < both_h || self.height < both_v {
            Rect { x: 0, y: 0, width: 0, height: 0 }
        } else {
            Rect {
                x: plus(self.x, horizontal),
                y: plus(self.y, vertical),
                width: self.width - both_h,
                height: self.height - both_v,
            }
        }
    }
}

/// A sum, at most the largest there is.
pub fn plus(a: u16, b: u16) -> (r: u16)
    ensures
        r == least(a + b, u16::MAX as int),
{
    if b <= u16::MAX - a {
        a + b
    } else {
        u16::MAX
    }
}

/// A difference, at least nought.
pub fn less(a: u16, b: u16) -> (r: u16)
    ensures
        r == minus(a as int, b as int),
{
    if a > b {
        a - b
    } else {
        0
    }
}

/// What is left of an area without a margin lies in the area.
pub proof fn law_inner_lies_within(r: Rect, horizontal: u16, vertical: u16)
    requires
        r.fits(),
        r.width >= 2 * horizontal,
        r.height >= 2 * vertical,
    ensures
        r.without_margin(horizontal as int, vertical as int).within(r),
        r.without_margin(horizontal as int, vertical as int).fits(),
{
}

/// A margin takes as much from either side.
pub proof fn law_margins_are_even(r: Rect, horizontal: u16, vertical: u16)
    requires
        r.fits(),
        r.width >= 2 * horizontal,
        r.height >= 2 * vertical,
    ensures
        ({
            let inner = r.without_margin(horizontal as int, vertical as int);
            &&& inner.x == r.x + horizontal && inner.x + inner.width + horizontal == r.x + r.width
            &&& inner.y == r.y + vertical && inner.y + inner.height + vertical == r.y + r.height
        }),
{
}

/// A border takes one cell at every side.
pub proof fn law_borders_are_one_cell(r: Rect)
    requires
        r.fits(),
        r.width >= 2,
        r.height >= 2,
    ensures
        r.inside_border() == r.without_margin(1, 1),
{
}

} // verus!
