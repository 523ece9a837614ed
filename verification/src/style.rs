//! The style of a node: pure data, read by the layout pass and by the draw
//! traversal. It never holds computed geometry.

use vstd::prelude::*;
use crate::color::Color;
use crate::size::{Align, Size};

verus! {

/// The axis along which a container arranges its children.
#[derive(Clone, Copy, PartialEq, Eq, Debug, Structural)]
pub enum ContainerDirection {
    /// Left to right: a row.
    Horizontal,
    /// Top to bottom: a column.
    Vertical,
}

/// Four independent offsets, used alike for padding, margin and inset.
#[derive(Clone, Copy, PartialEq, Eq, Debug, Structural)]
pub struct Edges {
    pub top: i32,
    pub right: i32,
    pub bottom: i32,
    pub left: i32,
}

/// Padding is written with the same four offsets.
pub type Padding = Edges;

impl Default for Edges {
    fn default() -> (e: Self)
        ensures
            e == (Edges { top: 0, right: 0, bottom: 0, left: 0 }),
    {
        Edges { top: 0, right: 0, bottom: 0, left: 0 }
    }
}

impl Edges {
    /// The same offset on all four sides.
    pub fn all(v: i32) -> (e: Self)
        ensures
            e == (Edges { top: v, right: v, bottom: v, left: v }),
    {
        Edges { top: v, right: v, bottom: v, left: v }
    }

    /// The offset on the left and on the right, none above and below.
    pub fn horizontal(v: i32) -> (e: Self)
        ensures
            e == (Edges { top: 0, right: v, bottom: 0, left: v }),
    {
        Edges { top: 0, right: v, bottom: 0, left: v }
    }

    /// The offset above and below, none on the left and on the right.
    pub fn vertical(v: i32) -> (e: Self)
        ensures
            e == (Edges { top: v, right: 0, bottom: v, left: 0 }),
    {
        Edges { top: v, right: 0, bottom: v, left: 0 }
    }

    /// The offset above only.
    pub fn top(v: i32) -> (e: Self)
        ensures
            e == (Edges { top: v, right: 0, bottom: 0, left: 0 }),
    {
        Edges { top: v, right: 0, bottom: 0, left: 0 }
    }

    /// The offset below only.
    pub fn bottom(v: i32) -> (e: Self)
        ensures
            e == (Edges { top: 0, right: 0, bottom: v, left: 0 }),
    {
        Edges { top: 0, right: 0, bottom: v, left: 0 }
    }

    /// The offset on the left only.
    pub fn left(v: i32) -> (e: Self)
        ensures
            e == (Edges { top: 0, right: 0, bottom: 0, left: v }),
    {
        Edges { top: 0, right: 0, bottom: 0, left: v }
    }

    /// The offset on the right only.
    pub fn right(v: i32) -> (e: Self)
        ensures
            e == (Edges { top: 0, right: v, bottom: 0, left: 0 }),
    {
        Edges { top: 0, right: v, bottom: 0, left: 0 }
    }

    /// The offset at the start of an axis: left for a row, top for a column.
    pub open spec fn spec_before(self, axis: ContainerDirection) -> i32 {
        match axis {
            ContainerDirection::Horizontal => self.left,
            ContainerDirection::Vertical => self.top,
        }
    }

    /// The offset at the end of an axis: right for a row, bottom for a column.
    pub open spec fn spec_after(self, axis: ContainerDirection) -> i32 {
        match axis {
            ContainerDirection::Horizontal => self.right,
            ContainerDirection::Vertical => self.bottom,
        }
    }

    /// The offset at the start of an axis: left for a row, top for a column.
    #[verifier::when_used_as_spec(spec_before)]
    pub fn before(self, axis: ContainerDirection) -> (v: i32)
        ensures
            v == self.spec_before(axis),
    {
        match axis {
            ContainerDirection::Horizontal => self.left,
            ContainerDirection::Vertical => self.top,
        }
    }

    /// The offset at the end of an axis: right for a row, bottom for a column.
    #[verifier::when_used_as_spec(spec_after)]
    pub fn after(self, axis: ContainerDirection) -> (v: i32)
        ensures
            v == self.spec_after(axis),
    {
        match axis {
            ContainerDirection::Horizontal => self.right,
            ContainerDirection::Vertical => self.bottom,
        }
    }
}

impl ContainerDirection {
    /// The other axis.
    pub open spec fn spec_cross(self) -> ContainerDirection {
        match self {
            ContainerDirection::Horizontal => ContainerDirection::Vertical,
            ContainerDirection::Vertical => ContainerDirection::Horizontal,
        }
    }

    /// The other axis.
    #[verifier::when_used_as_spec(spec_cross)]
    pub fn cross(self) -> (c: ContainerDirection)
        ensures
            c == self.spec_cross(),
    {
        match self {
            ContainerDirection::Horizontal => ContainerDirection::Vertical,
            ContainerDirection::Vertical => ContainerDirection::Horizontal,
        }
    }
}

/// Whether a node takes part in its container's flow.
#[derive(Clone, Copy, PartialEq, Eq, Debug, Structural)]
pub enum Position {
    /// Placed by the container, one after the other.
    Relative,
    /// Placed by its inset against the container, outside the flow.
    Absolute,
}

impl Default for Position {
    fn default() -> (r: Self)
        ensures
            r == Position::Relative,
    {
        Position::Relative
    }
}

/// What a container does with children that reach outside its rectangle.
#[derive(Clone, Copy, PartialEq, Eq, Debug, Structural)]
pub enum Overflow {
    /// They are drawn.
    Visible,
    /// They are clipped.
    Hidden,
    /// They are clipped, and the content may be scrolled.
    Scroll,
}

impl Default for Overflow {
    fn default() -> (r: Self)
        ensures
            r == Overflow::Visible,
    {
        Overflow::Visible
    }
}

/// The style of a node.
///
/// `margin` and `shrink` are carried for the host; the layout pass reads
/// neither.
#[derive(Clone, Copy, Debug)]
pub struct Style {
    pub width: Size,
    pub height: Size,
    pub min_width: Option<i32>,
    pub max_width: Option<i32>,
    pub min_height: Option<i32>,
    pub max_height: Option<i32>,
    /// The weight of a `Fill` child in the split of what its siblings leave.
    /// It matters only where the `Fill` children of a container have
    /// different weights.
    pub grow: u32,
    pub shrink: Option<u32>,
    /// Placement of the children along the x axis.
    pub align_x: Align,
    /// Placement of the children along the y axis.
    pub align_y: Align,
    /// Overrides, for this node, the cross-axis alignment of its container.
    pub align_self: Option<Align>,
    pub padding: Edges,
    pub margin: Edges,
    /// Space between two neighbouring children on the main axis.
    pub gap: i32,
    pub position: Position,
    pub inset: Edges,
    pub background: Option<Color>,
    pub border_radius: i32,
    pub border_color: Option<Color>,
    pub border_thickness: i32,
    /// From 0, invisible, to 255, opaque.
    pub opacity: u8,
    pub overflow: Overflow,
    pub shadow_color: Color,
    pub shadow_offset_x: i32,
    pub shadow_offset_y: i32,
    pub shadow_blur: i32,
}

/// The style of a node that asked for nothing: natural size, no spacing, in
/// the flow, opaque, nothing painted, overflow visible.
pub open spec fn default_style() -> Style {
    Style {
        width: Size::Auto,
        height: Size::Auto,
        min_width: None,
        max_width: None,
        min_height: None,
        max_height: None,
        grow: 0,
        shrink: None,
        align_x: Align::Start,
        align_y: Align::Start,
        align_self: None,
        padding: Edges { top: 0, right: 0, bottom: 0, left: 0 },
        margin: Edges { top: 0, right: 0, bottom: 0, left: 0 },
        gap: 0,
        position: Position::Relative,
        inset: Edges { top: 0, right: 0, bottom: 0, left: 0 },
        background: None,
        border_radius: 0,
        border_color: None,
        border_thickness: 0,
        opacity: 255,
        overflow: Overflow::Visible,
        shadow_color: Color { r: 0, g: 0, b: 0, a: 0 },
        shadow_offset_x: 0,
        shadow_offset_y: 0,
        shadow_blur: 0,
    }
}

impl Default for Style {
    fn default() -> (s: Self)
        ensures
            s == default_style(),
    {
        Style {
            width: Size::Auto,
            height: Size::Auto,
            min_width: None,
            max_width: None,
            min_height: None,
            max_height: None,
            grow: 0,
            shrink: None,
            align_x: Align::Start,
            align_y: Align::Start,
            align_self: None,
            padding: Edges { top: 0, right: 0, bottom: 0, left: 0 },
            margin: Edges { top: 0, right: 0, bottom: 0, left: 0 },
            gap: 0,
            position: Position::Relative,
            inset: Edges { top: 0, right: 0, bottom: 0, left: 0 },
            background: None,
            border_radius: 0,
            border_color: None,
            border_thickness: 0,
            opacity: 255,
            overflow: Overflow::Visible,
            shadow_color: Color { r: 0, g: 0, b: 0, a: 0 },
            shadow_offset_x: 0,
            shadow_offset_y: 0,
            shadow_blur: 0,
        }
    }
}

impl Style {
    /// The size request on an axis: the width for a row's main axis.
    pub open spec fn spec_size_on(&self, axis: ContainerDirection) -> Size {
        match axis {
            ContainerDirection::Horizontal => self.width,
            ContainerDirection::Vertical => self.height,
        }
    }

    /// The lower clamp on an axis.
    pub open spec fn spec_min_on(&self, axis: ContainerDirection) -> Option<i32> {
        match axis {
            ContainerDirection::Horizontal => self.min_width,
            ContainerDirection::Vertical => self.min_height,
        }
    }

    /// The upper clamp on an axis.
    pub open spec fn spec_max_on(&self, axis: ContainerDirection) -> Option<i32> {
        match axis {
            ContainerDirection::Horizontal => self.max_width,
            ContainerDirection::Vertical => self.max_height,
        }
    }

    /// The placement of children along an axis.
    pub open spec fn spec_align_on(&self, axis: ContainerDirection) -> Align {
        match axis {
            ContainerDirection::Horizontal => self.align_x,
            ContainerDirection::Vertical => self.align_y,
        }
    }

    /// Whether the node is placed by its container's flow.
    pub open spec fn spec_in_flow(&self) -> bool {
        self.position == Position::Relative
    }

    /// The size request on an axis.
    #[verifier::when_used_as_spec(spec_size_on)]
    pub fn size_on(&self, axis: ContainerDirection) -> (r: Size)
        ensures
            r == self.spec_size_on(axis),
    {
        match axis {
            ContainerDirection::Horizontal => self.width,
            ContainerDirection::Vertical => self.height,
        }
    }

    /// The lower clamp on an axis.
    #[verifier::when_used_as_spec(spec_min_on)]
    pub fn min_on(&self, axis: ContainerDirection) -> (r: Option<i32>)
        ensures
            r == self.spec_min_on(axis),
    {
        match axis {
            ContainerDirection::Horizontal => self.min_width,
            ContainerDirection::Vertical => self.min_height,
        }
    }

    /// The upper clamp on an axis.
    #[verifier::when_used_as_spec(spec_max_on)]
    pub fn max_on(&self, axis: ContainerDirection) -> (r: Option<i32>)
        ensures
            r == self.spec_max_on(axis),
    {
        match axis {
            ContainerDirection::Horizontal => self.max_width,
            ContainerDirection::Vertical => self.max_height,
        }
    }

    /// The placement of children along an axis.
    #[verifier::when_used_as_spec(spec_align_on)]
    pub fn align_on(&self, axis: ContainerDirection) -> (r: Align)
        ensures
            r == self.spec_align_on(axis),
    {
        match axis {
            ContainerDirection::Horizontal => self.align_x,
            ContainerDirection::Vertical => self.align_y,
        }
    }

    /// Whether the node is placed by its container's flow.
    #[verifier::when_used_as_spec(spec_in_flow)]
    pub fn in_flow(&self) -> (r: bool)
        ensures
            r == self.spec_in_flow(),
    {
        self.position == Position::Relative
    }
}

} // verus!
