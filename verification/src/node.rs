//! The layout tree: one node with resolved geometry for every element.

use vstd::prelude::*;
use crate::color::Color;
use crate::element::Callbacks;
use crate::fonts::FontId;
use crate::style::{default_style, ContainerDirection, Style};
use crate::units::saturate;

verus! {

/// What a layout node carries besides its rectangle.
pub enum LayoutKind {
    /// Nothing.
    Empty,
    /// A rectangle. `hovered` is set by the dispatch.
    Rect { color: Color, hover_color: Option<Color>, hovered: bool, callbacks: Callbacks },
    /// A text.
    Text { content: String, color: Color, font: Option<FontId> },
    /// A button, with the bounds of its shaped label. `hovered` is set by
    /// the dispatch.
    Button { label: String, label_w: i32, label_h: i32, hovered: bool, callbacks: Callbacks },
    /// The children of a row or column, in the order of declaration.
    Children(Vec<LayoutNode>),
}

/// A resolved node: its rectangle, the style it was made from, and its kind.
pub struct LayoutNode {
    pub x: i32,
    pub y: i32,
    pub w: i32,
    pub h: i32,
    pub style: Style,
    pub kind: LayoutKind,
}

/// The mathematical value of a `LayoutKind`.
pub enum KindView {
    Empty,
    Rect { color: Color, hover_color: Option<Color>, hovered: bool, callbacks: Callbacks },
    Text { content: Seq<char>, color: Color, font: Option<FontId> },
    Button { label: Seq<char>, label_w: i32, label_h: i32, hovered: bool, callbacks: Callbacks },
    Children(Seq<NodeView>),
}

/// The mathematical value of a `LayoutNode`.
pub struct NodeView {
    pub x: int,
    pub y: int,
    pub w: int,
    pub h: int,
    pub style: Style,
    pub kind: KindView,
}

/// The mathematical value of a layout node. It is opaque to the prover
/// until revealed, so that a proof that only carries nodes about does not
/// look inside them.
#[verifier::opaque]
pub open spec fn node_view(n: LayoutNode) -> NodeView
    decreases n,
{
    NodeView {
        x: n.x as int,
        y: n.y as int,
        w: n.w as int,
        h: n.h as int,
        style: n.style,
        kind: match n.kind {
            LayoutKind::Empty => KindView::Empty,
            LayoutKind::Rect { color, hover_color, hovered, callbacks } => KindView::Rect {
                color,
                hover_color,
                hovered,
                callbacks,
            },
            LayoutKind::Text { content, color, font } => KindView::Text { content: content@, color, font },
            LayoutKind::Button { label, label_w, label_h, hovered, callbacks } => KindView::Button {
                label: label@,
                label_w,
                label_h,
                hovered,
                callbacks,
            },
            LayoutKind::Children(nodes) => KindView::Children(views(nodes@)),
        },
    }
}

/// The mathematical values of a list of layout nodes, in the same order.
pub open spec fn views(nodes: Seq<LayoutNode>) -> Seq<NodeView>
    decreases nodes,
{
    Seq::new(
        nodes.len(),
        |i: int|
            if 0 <= i < nodes.len() {
                node_view(nodes[i])
            } else {
                empty_view()
            },
    )
}

impl View for LayoutNode {
    type V = NodeView;

    open spec fn view(&self) -> NodeView {
        node_view(*self)
    }
}

/// The node of an empty element: a point at the origin.
pub open spec fn empty_view() -> NodeView {
    NodeView { x: 0, y: 0, w: 0, h: 0, style: default_style(), kind: KindView::Empty }
}

impl NodeView {
    /// The children of a container node; no other node has any.
    pub open spec fn children(self) -> Seq<NodeView> {
        match self.kind {
            KindView::Children(nodes) => nodes,
            _ => Seq::empty(),
        }
    }

    /// Whether the pointer can be over the node: a rectangle or a button.
    pub open spec fn interactive(self) -> bool {
        self.kind is Rect || self.kind is Button
    }

    /// The extent of the rectangle on an axis.
    pub open spec fn size_on(self, axis: ContainerDirection) -> int {
        match axis {
            ContainerDirection::Horizontal => self.w,
            ContainerDirection::Vertical => self.h,
        }
    }

    /// The start of the rectangle on an axis.
    pub open spec fn pos_on(self, axis: ContainerDirection) -> int {
        match axis {
            ContainerDirection::Horizontal => self.x,
            ContainerDirection::Vertical => self.y,
        }
    }

    /// The extent the node takes in the flow of its container: a container
    /// has its padding inside its rectangle, any other node around it.
    pub open spec fn outer_on(self, axis: ContainerDirection) -> int {
        if self.kind is Children {
            self.size_on(axis)
        } else {
            saturate(
                self.style.padding.spec_before(axis) + self.size_on(axis)
                    + self.style.padding.spec_after(axis),
            )
        }
    }

    /// The same node at another place.
    pub open spec fn at(self, x: int, y: int) -> NodeView {
        NodeView { x, y, ..self }
    }
}

/// Two nodes that differ in their origin only have views that differ in
/// their origin only.
pub proof fn lemma_view_moved(a: LayoutNode, b: LayoutNode)
    requires
        b.w == a.w,
        b.h == a.h,
        b.style == a.style,
        b.kind == a.kind,
    ensures
        b@ == a@.at(b.x as int, b.y as int),
{
    reveal_with_fuel(node_view, 1);
}

/// The view of a node gives its rectangle and style as they are.
pub proof fn lemma_view_rect(a: LayoutNode)
    ensures
        a@.x == a.x,
        a@.y == a.y,
        a@.w == a.w,
        a@.h == a.h,
        a@.style == a.style,
        a@.kind is Children <==> a.kind is Children,
{
    reveal_with_fuel(node_view, 1);
}

/// The view of a node gives its kind as it is: the same actions and
/// colours, the characters of its text, and the views of its children.
pub proof fn lemma_view_kind(a: LayoutNode)
    ensures
        match a.kind {
            LayoutKind::Empty => a@.kind == KindView::Empty,
            LayoutKind::Rect { color, hover_color, hovered, callbacks } => a@.kind == (KindView::Rect {
                color,
                hover_color,
                hovered,
                callbacks,
            }),
            LayoutKind::Text { content, color, font } => a@.kind == (KindView::Text {
                content: content@,
                color,
                font,
            }),
            LayoutKind::Button { label, label_w, label_h, hovered, callbacks } => a@.kind
                == (KindView::Button { label: label@, label_w, label_h, hovered, callbacks }),
            LayoutKind::Children(nodes) => a@.kind == KindView::Children(views(nodes@)),
        },
{
    reveal_with_fuel(node_view, 1);
}

impl LayoutNode {
    /// The node of an empty element: a point at the origin.
    pub fn empty() -> (n: Self)
        ensures
            n@ == empty_view(),
    {
        reveal_with_fuel(node_view, 1);
        LayoutNode { x: 0, y: 0, w: 0, h: 0, style: Style::default(), kind: LayoutKind::Empty }
    }

    /// The extent the node takes in the flow of its container.
    pub fn outer_on(&self, axis: ContainerDirection) -> (r: i32)
        ensures
            r as int == self@.outer_on(axis),
    {
        reveal_with_fuel(node_view, 1);
        let size: i32 = match axis {
            ContainerDirection::Horizontal => self.w,
            ContainerDirection::Vertical => self.h,
        };
        match self.kind {
            LayoutKind::Children(_) => size,
            _ => crate::units::sat_add3(self.style.padding.before(axis), size, self.style.padding.after(axis)),
        }
    }
}

} // verus!
