//! Selections.

use vstd::prelude::*;
use crate::linebuf::pos::{diff, in_order, earlier_first, Pos, SignedPos};

verus! {

/// What kind of selection is active, and where it was started.
#[derive(Clone, Copy, Debug, PartialEq, Eq, Structural)]
pub enum SelectMode {
    Char(Pos),
    Line(Pos),
    Block(Pos),
}

/// The extent of a selection, apart from where it stood.
#[derive(Clone, Copy, Debug, PartialEq, Eq, Structural)]
pub enum SelectShape {
    Char(SignedPos),
    Line(SignedPos),
    Block(SignedPos),
}

/// Where a selection was started.
pub open spec fn anchor_of(m: SelectMode) -> Pos {
    match m {
        SelectMode::Char(p) => p,
        SelectMode::Line(p) => p,
        SelectMode::Block(p) => p,
    }
}

/// The same kind of selection with another anchor.
pub open spec fn with_anchor(m: SelectMode, p: Pos) -> SelectMode {
    match m {
        SelectMode::Char(_) => SelectMode::Char(p),
        SelectMode::Line(_) => SelectMode::Line(p),
        SelectMode::Block(_) => SelectMode::Block(p),
    }
}

/// From the earlier to the later of two places.
pub open spec fn extent(a: Pos, b: Pos) -> SignedPos {
    diff(in_order(a, b).1, in_order(a, b).0)
}

/// The extent of a selection that reaches to `other`.
pub open spec fn shape_of(m: SelectMode, other: Pos) -> SelectShape {
    match m {
        SelectMode::Char(p) => SelectShape::Char(extent(p, other)),
        SelectMode::Line(p) => SelectShape::Line(extent(p, other)),
        SelectMode::Block(p) => SelectShape::Block(extent(p, other)),
    }
}

/// The offset a shape holds.
pub open spec fn shape_offset(s: SelectShape) -> SignedPos {
    match s {
        SelectShape::Char(p) => p,
        SelectShape::Line(p) => p,
        SelectShape::Block(p) => p,
    }
}

impl SelectMode {
    pub fn shape(&self, other: Pos) -> (s: SelectShape)
        ensures
            s == shape_of(*self, other),
    {
        match self {
            SelectMode::Char(pos) => {
                let (s, e) = earlier_first(*pos, other);
                SelectShape::Char(e.difference(&s))
            },
            SelectMode::Line(pos) => {
                let (s, e) = earlier_first(*pos, other);
                SelectShape::Line(e.difference(&s))
            },
            SelectMode::Block(pos) => {
                let (s, e) = earlier_first(*pos, other);
                SelectShape::Block(e.difference(&s))
            },
        }
    }

    /// Where the selection was started.
    pub fn anchor(&self) -> (p: Pos)
        ensures
            p == anchor_of(*self),
    {
        match self {
            SelectMode::Char(pos) => *pos,
            SelectMode::Line(pos) => *pos,
            SelectMode::Block(pos) => *pos,
        }
    }

    /// The same kind of selection, started at `pos`.
    pub fn moved_to(&self, pos: Pos) -> (m: SelectMode)
        ensures
            m == with_anchor(*self, pos),
    {
        match self {
            SelectMode::Char(_) => SelectMode::Char(pos),
            SelectMode::Line(_) => SelectMode::Line(pos),
            SelectMode::Block(_) => SelectMode::Block(pos),
        }
    }
}

impl SelectShape {
    pub fn pos(&self) -> (p: SignedPos)
        ensures
            p == shape_offset(*self),
    {
        match self {
            SelectShape::Char(pos) => *pos,
            SelectShape::Line(pos) => *pos,
            SelectShape::Block(pos) => *pos,
        }
    }

    pub fn into_select_mode(self, resolved: Pos) -> (m: SelectMode)
        ensures
            m == placed(self, resolved),
    {
        match self {
            SelectShape::Char(_) => SelectMode::Char(resolved),
            SelectShape::Line(_) => SelectMode::Line(resolved),
            SelectShape::Block(_) => SelectMode::Block(resolved),
        }
    }
}

/// A selection of the shape's kind, started at `p`.
pub open spec fn placed(s: SelectShape, p: Pos) -> SelectMode {
    match s {
        SelectShape::Char(_) => SelectMode::Char(p),
        SelectShape::Line(_) => SelectMode::Line(p),
        SelectShape::Block(_) => SelectMode::Block(p),
    }
}

/// A shape taken from a selection and placed where it came from reaches from
/// the earlier end to the later one again.
pub proof fn law_shape_replays(m: SelectMode, other: Pos)
    requires
        isize::MIN <= anchor_of(m).row - other.row <= isize::MAX,
        isize::MIN <= anchor_of(m).col - other.col <= isize::MAX,
        isize::MIN <= other.row - anchor_of(m).row <= isize::MAX,
        isize::MIN <= other.col - anchor_of(m).col <= isize::MAX,
    ensures
        ({
            let low = in_order(anchor_of(m), other).0;
            let high = in_order(anchor_of(m), other).1;
            let off = shape_offset(shape_of(m, other));
            crate::linebuf::pos::shifted(low, off.row as int, off.col as int) == high
        }),
        placed(shape_of(m, other), anchor_of(m)) == m,
{
}

} // verus!
