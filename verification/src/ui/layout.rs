//! Dividing areas.

use ratatui::layout::{Constraint as Share, Direction as Axis, Layout, Rect as Cells};
use vstd::prelude::*;
use crate::ui::geometry::Rect;

verus! {

/// How large a part of an area is to be.
#[derive(Debug, Clone, Copy, PartialEq, Eq, Structural)]
pub enum Constraint {
    /// Exactly so large.
    Length(u16),
    /// At least so large.
    Min(u16),
    /// So many hundredths of the area.
    Percentage(u16),
}

/// The direction in which an area is divided.
#[derive(Debug, Clone, Copy, PartialEq, Eq, Structural)]
pub enum Direction {
    Vertical,
    Horizontal,
}

/// The extent of an area in the direction in which it is divided.
pub open spec fn extent(r: Rect, direction: Direction) -> int {
    if direction == Direction::Vertical {
        r.height as int
    } else {
        r.width as int
    }
}

/// Where an area begins in the direction in which it is divided.
pub open spec fn start(r: Rect, direction: Direction) -> int {
    if direction == Direction::Vertical {
        r.y as int
    } else {
        r.x as int
    }
}

/// How much room a part asks for.
pub open spec fn need(c: Constraint, whole: int) -> int {
    match c {
        Constraint::Length(n) => n as int,
        Constraint::Min(n) => n as int,
        Constraint::Percentage(p) => (p * whole + 99) / 100,
    }
}

/// How much room the parts ask for together, with the space between them.
pub open spec fn demand(cs: Seq<Constraint>, whole: int, spacing: int) -> int
    decreases cs.len(),
{
    if cs.len() == 0 {
        0
    } else if cs.len() == 1 {
        need(cs[0], whole)
    } else {
        demand(cs.drop_last(), whole, spacing) + spacing + need(cs.last(), whole)
    }
}

/// There is room for all parts. Hundredths are given to the first part only, and
/// least sizes are no larger than a signed number of 16 bits.
pub open spec fn can_be_met(cs: Seq<Constraint>, whole: int, spacing: int) -> bool {
    &&& demand(cs, whole, spacing) <= whole
    &&& 0 <= spacing <= i16::MAX
    &&& forall|i: int|
        0 <= i < cs.len() ==> match #[trigger] cs[i] {
            Constraint::Length(_) => true,
            Constraint::Min(n) => n <= i16::MAX,
            Constraint::Percentage(p) => i == 0 && p <= 100,
        }
}

/// A part is as large as it is to be. Hundredths are rounded.
pub open spec fn is_met(c: Constraint, size: int, whole: int) -> bool {
    match c {
        Constraint::Length(n) => size == n,
        Constraint::Min(n) => size >= n,
        Constraint::Percentage(p) => -50 <= 100 * size - p * whole <= 50,
    }
}

/// One of the parts takes what is left.
pub open spec fn has_min(cs: Seq<Constraint>) -> bool {
    exists|i: int| 0 <= i < cs.len() && #[trigger] cs[i] is Min
}

/// The parts of an area, one for each constraint: they lie in the area and go all
/// the way across it.
pub open spec fn are_parts(parts: Seq<Rect>, inner: Rect, direction: Direction, n: nat) -> bool {
    &&& parts.len() == n
    &&& forall|i: int|
        0 <= i < parts.len() ==> (#[trigger] parts[i]).within(inner) && if direction == Direction::Vertical {
            parts[i].x == inner.x && parts[i].width == inner.width
        } else {
            parts[i].y == inner.y && parts[i].height == inner.height
        }
}

/// The parts stand one behind the other, from the start of the area, with the space
/// between them, each as large as it is to be; where one takes what is left, they
/// go to the end of the area.
pub open spec fn are_in_place(
    parts: Seq<Rect>,
    inner: Rect,
    direction: Direction,
    spacing: int,
    cs: Seq<Constraint>,
) -> bool {
    let whole = extent(inner, direction);
    &&& forall|i: int| 0 <= i < cs.len() ==> is_met(#[trigger] cs[i], extent(parts[i], direction), whole)
    &&& cs.len() > 0 ==> start(parts[0], direction) == start(inner, direction)
    &&& forall|i: int|
        0 < i < cs.len() ==> start(#[trigger] parts[i], direction) == start(parts[i - 1], direction)
            + extent(parts[i - 1], direction) + spacing
    &&& has_min(cs) ==> start(parts.last(), direction) + extent(parts.last(), direction) == start(
        inner,
        direction,
    ) + whole
}

/// The parts of an area without a margin: in it, and in their places where there
/// is room for all.
pub open spec fn is_split(
    parts: Seq<Rect>,
    area: Rect,
    direction: Direction,
    margin: u16,
    spacing: u16,
    cs: Seq<Constraint>,
) -> bool {
    let inner = area.without_margin(margin as int, margin as int);
    &&& are_parts(parts, inner, direction, cs.len())
    &&& can_be_met(cs, extent(inner, direction), spacing as int) && inner.fits() ==> are_in_place(
        parts,
        inner,
        direction,
        spacing as int,
        cs,
    )
}

/// `ratatui::layout::Layout::split`, with a direction, a margin, a spacing and
/// constraints, aligned to the start. The contract claims that there is one part
/// for each constraint, that every part lies in the area without its margin and
/// goes all the way across it, and, where there is room for all, that every part
/// has the size that it is to have and stands behind the part before it. What
/// happens where there is not room for all is not claimed: the solver behind it
/// does not promise the same answer every time.
#[verifier::external_body]
pub(crate) fn split(
    area: Rect,
    direction: Direction,
    margin: u16,
    spacing: u16,
    constraints: &[Constraint],
) -> (r: Vec<Rect>)
    ensures
        is_split(r@, area, direction, margin, spacing, constraints@),
{
    let direction = match direction {
        Direction::Vertical => Axis::Vertical,
        Direction::Horizontal => Axis::Horizontal,
    };
    let constraints = constraints.iter().map(|c| match *c {
        Constraint::Length(n) => Share::Length(n),
        Constraint::Min(n) => Share::Min(n),
        Constraint::Percentage(p) => Share::Percentage(p),
    });
    let area = Cells { x: area.x, y: area.y, width: area.width, height: area.height };
    let plan = Layout::new(direction, constraints).margin(margin).spacing(spacing);
    let parts = plan.split(area);
    parts.iter().map(|p| Rect { x: p.x, y: p.y, width: p.width, height: p.height }).collect()
}

} // verus!
