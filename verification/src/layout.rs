//! The layout pass: from an element tree and an available extent to a tree
//! of rectangles.
//!
//! A node is first arranged: sized, with its origin relative to the origin
//! of its parent. The arranged tree is then placed: every origin becomes
//! absolute, top-down from where the root is put.

use vstd::prelude::*;
use crate::element::{Element, BUTTON_PAD_H, BUTTON_PAD_W};
use crate::measure::{
    content_extent, flow_count, gaps_total, max_request_on, min_request_on, request_on,
};
use crate::node::{empty_view, node_view, KindView, LayoutKind, LayoutNode, NodeView};
use crate::flow::arrange_container;
use crate::size::{align_offset_spec, resolve_clamped, resolved_extent, Align, Size};
use crate::style::{ContainerDirection, Style};
use crate::units::{at_least_zero, inner_extent, inner_extent_spec, max_of, sat_add, saturate};

verus! {

/// Of a pair given as (along the direction, across it), the horizontal one.
pub open spec fn width_of(dir: ContainerDirection, main: int, cross: int) -> int {
    match dir {
        ContainerDirection::Horizontal => main,
        ContainerDirection::Vertical => cross,
    }
}

/// Of a pair given as (along the direction, across it), the vertical one.
pub open spec fn height_of(dir: ContainerDirection, main: int, cross: int) -> int {
    match dir {
        ContainerDirection::Horizontal => cross,
        ContainerDirection::Vertical => main,
    }
}

/// Of a width and a height, the one along an axis.
pub open spec fn along(axis: ContainerDirection, w: int, h: int) -> int {
    match axis {
        ContainerDirection::Horizontal => w,
        ContainerDirection::Vertical => h,
    }
}

/// Whether an element asks for `Fill` on an axis, by the request that
/// counts for it.
pub open spec fn is_fill(e: Element, axis: ContainerDirection) -> bool {
    request_on(e, axis) == Size::Fill
}

/// A leaf arranged in the extent it is offered: its rectangle starts after
/// its left and top padding, and its size is its request resolved against
/// what the padding leaves of the offer. A text is as high as it was
/// shaped, whatever its style asks for.
pub open spec fn leaf_view(e: Element, aw: int, ah: int, kind: KindView) -> NodeView {
    let s = e.spec_style();
    NodeView {
        x: s.padding.left as int,
        y: s.padding.top as int,
        w: resolved_extent(
            request_on(e, ContainerDirection::Horizontal),
            content_extent(e, ContainerDirection::Horizontal),
            inner_extent_spec(aw, s.padding.left as int, s.padding.right as int),
            min_request_on(e, ContainerDirection::Horizontal),
            max_request_on(e, ContainerDirection::Horizontal),
        ),
        h: resolved_extent(
            request_on(e, ContainerDirection::Vertical),
            content_extent(e, ContainerDirection::Vertical),
            inner_extent_spec(ah, s.padding.top as int, s.padding.bottom as int),
            min_request_on(e, ContainerDirection::Vertical),
            max_request_on(e, ContainerDirection::Vertical),
        ),
        style: s,
        kind,
    }
}

/// An element arranged in the extent it is offered. The origin of the node
/// is relative to the origin of its parent; the origins of its descendants
/// are relative to their own parents. The definition is opaque to the
/// prover until revealed, so that a proof that only carries arranged nodes
/// about does not unfold it.
#[verifier::opaque]
pub open spec fn arrange_spec(e: Element, aw: int, ah: int) -> NodeView
    decreases e, 0int, 0int,
{
    match e {
        Element::Empty => empty_view(),
        Element::Rect { color, hover_color, callbacks, .. } => leaf_view(
            e,
            aw,
            ah,
            KindView::Rect { color, hover_color, hovered: false, callbacks },
        ),
        Element::Text { content, color, font, .. } => leaf_view(
            e,
            aw,
            ah,
            KindView::Text { content: content@, color, font },
        ),
        Element::Button { label, label_w, label_h, callbacks, .. } => leaf_view(
            e,
            aw,
            ah,
            KindView::Button { label: label@, label_w, label_h, hovered: false, callbacks },
        ),
        Element::Row { style, children } => container_view(
            style,
            children@,
            ContainerDirection::Horizontal,
            aw,
            ah,
        ),
        Element::Column { style, children } => container_view(
            style,
            children@,
            ContainerDirection::Vertical,
            aw,
            ah,
        ),
    }
}

/// A child arranged for the flow of a container of direction `dir`, which
/// offers it `main` along that direction and `cross` across it.
pub open spec fn flow_node(kid: Element, dir: ContainerDirection, main: int, cross: int) -> NodeView
    decreases kid, 1int, 0int,
{
    arrange_spec(kid, width_of(dir, main, cross), height_of(dir, main, cross))
}

/// The number of `Fill` children in the flow among the first `upto`.
pub open spec fn fill_count(kids: Seq<Element>, dir: ContainerDirection, upto: int) -> int
    decreases upto,
{
    if upto <= 0 || upto > kids.len() {
        0
    } else {
        fill_count(kids, dir, upto - 1) + if kids[upto - 1].spec_style().spec_in_flow() && is_fill(
            kids[upto - 1],
            dir,
        ) {
            1int
        } else {
            0int
        }
    }
}

/// The extent that the children in the flow which are no `Fill` children
/// take along `dir`, among the first `upto`, pinned after every child.
pub open spec fn fixed_sum(
    kids: Seq<Element>,
    dir: ContainerDirection,
    main_avail: int,
    cross_avail: int,
    upto: int,
) -> int
    decreases kids, 1int, upto,
{
    if upto <= 0 || upto > kids.len() {
        0
    } else if kids[upto - 1].spec_style().spec_in_flow() && !is_fill(kids[upto - 1], dir) {
        saturate(
            fixed_sum(kids, dir, main_avail, cross_avail, upto - 1) + flow_node(
                kids[upto - 1],
                dir,
                main_avail,
                cross_avail,
            ).outer_on(dir),
        )
    } else {
        fixed_sum(kids, dir, main_avail, cross_avail, upto - 1)
    }
}

/// What every `Fill` child is offered: an equal share, rounded down, of
/// what the other children leave; nothing where they leave nothing.
#[verifier::opaque]
pub open spec fn share_of(main_avail: int, fixed_total: int, fills: int) -> int {
    if fills > 0 {
        at_least_zero(saturate(main_avail - fixed_total)) / fills
    } else {
        0
    }
}

/// The sum of the grow weights of the `Fill` children in the flow among the
/// first `upto`.
pub open spec fn fill_weight(kids: Seq<Element>, dir: ContainerDirection, upto: int) -> int
    decreases upto,
{
    if upto <= 0 || upto > kids.len() {
        0
    } else {
        fill_weight(kids, dir, upto - 1) + if kids[upto - 1].spec_style().spec_in_flow() && is_fill(
            kids[upto - 1],
            dir,
        ) {
            kids[upto - 1].spec_style().grow as int
        } else {
            0int
        }
    }
}

/// The grow weight of the first `Fill` child in the flow among the first
/// `upto`, if there is one.
pub open spec fn first_fill_weight(kids: Seq<Element>, dir: ContainerDirection, upto: int) -> Option<u32>
    decreases upto,
{
    if upto <= 0 || upto > kids.len() {
        None
    } else {
        match first_fill_weight(kids, dir, upto - 1) {
            Some(w) => Some(w),
            None => if kids[upto - 1].spec_style().spec_in_flow() && is_fill(kids[upto - 1], dir) {
                Some(kids[upto - 1].spec_style().grow)
            } else {
                None
            },
        }
    }
}

/// Whether the `Fill` children in the flow among the first `upto` all have
/// the same grow weight.
pub open spec fn weights_even(kids: Seq<Element>, dir: ContainerDirection, upto: int) -> bool
    decreases upto,
{
    if upto <= 0 || upto > kids.len() {
        true
    } else {
        weights_even(kids, dir, upto - 1) && (kids[upto - 1].spec_style().spec_in_flow() && is_fill(
            kids[upto - 1],
            dir,
        ) ==> match first_fill_weight(kids, dir, upto - 1) {
            Some(w) => w == kids[upto - 1].spec_style().grow,
            None => true,
        })
    }
}

/// The part of `remaining` that falls to a grow weight of `grow` among
/// weights that sum to `total`, rounded down; nothing where the weights sum
/// to nothing.
#[verifier::opaque]
pub open spec fn weighted_share(remaining: int, grow: int, total: int) -> int {
    if total > 0 {
        saturate((remaining * grow) / total)
    } else {
        0
    }
}

/// How what the other children leave is split among the `Fill` children.
#[derive(Clone, Copy, Debug)]
pub struct FillRule {
    /// What the other children leave, and never less than nothing.
    pub remaining: i32,
    /// What every `Fill` child is offered where the split is equal.
    pub share: i32,
    /// The sum of the grow weights of the `Fill` children.
    pub total_weight: u128,
    /// Whether the split is by weight: it is where the weights differ.
    pub weighted: bool,
}

/// The split among `fills` `Fill` children whose grow weights sum to
/// `total_weight` and are all the same or not, of what `fixed_total` leaves
/// of `main_avail`.
pub open spec fn fill_rule(
    main_avail: int,
    fixed_total: int,
    fills: int,
    total_weight: int,
    even: bool,
) -> FillRule {
    FillRule {
        remaining: at_least_zero(saturate(main_avail - fixed_total)) as i32,
        share: share_of(main_avail, fixed_total, fills) as i32,
        total_weight: total_weight as u128,
        weighted: !even,
    }
}

/// What a child is offered along the direction of its container: a child
/// that is no `Fill` child what the container has, a `Fill` child its
/// share. Where the grow weights of the `Fill` children are all the same,
/// zero or not, the shares are equal. Where they differ, what is left is
/// split in proportion to the weights.
pub open spec fn offer(kid: Element, dir: ContainerDirection, main_avail: int, rule: FillRule) -> int {
    if !is_fill(kid, dir) {
        main_avail
    } else if rule.weighted {
        weighted_share(rule.remaining as int, kid.spec_style().grow as int, rule.total_weight as int)
    } else {
        rule.share as int
    }
}

/// The extent that the children in the flow take along `dir`, among the
/// first `upto`, pinned after every child. Gaps are not counted.
pub open spec fn content_sum(
    kids: Seq<Element>,
    dir: ContainerDirection,
    main_avail: int,
    rule: FillRule,
    cross_avail: int,
    upto: int,
) -> int
    decreases kids, 1int, upto,
{
    if upto <= 0 || upto > kids.len() {
        0
    } else if kids[upto - 1].spec_style().spec_in_flow() {
        saturate(
            content_sum(kids, dir, main_avail, rule, cross_avail, upto - 1) + flow_node(
                kids[upto - 1],
                dir,
                offer(kids[upto - 1], dir, main_avail, rule),
                cross_avail,
            ).outer_on(dir),
        )
    } else {
        content_sum(kids, dir, main_avail, rule, cross_avail, upto - 1)
    }
}

/// The largest extent across `dir` of the children in the flow among the
/// first `upto`, and at least zero.
pub open spec fn cross_max(
    kids: Seq<Element>,
    dir: ContainerDirection,
    main_avail: int,
    rule: FillRule,
    cross_avail: int,
    upto: int,
) -> int
    decreases kids, 1int, upto,
{
    if upto <= 0 || upto > kids.len() {
        0
    } else if kids[upto - 1].spec_style().spec_in_flow() {
        max_of(
            cross_max(kids, dir, main_avail, rule, cross_avail, upto - 1),
            flow_node(
                kids[upto - 1],
                dir,
                offer(kids[upto - 1], dir, main_avail, rule),
                cross_avail,
            ).outer_on(dir.spec_cross()),
        )
    } else {
        cross_max(kids, dir, main_avail, rule, cross_avail, upto - 1)
    }
}

/// The space in front of the first child, of `leftover` space spread over
/// `n` children in the flow.
#[verifier::opaque]
pub open spec fn lead_space(align: Align, leftover: int, n: int) -> int {
    match align {
        Align::Start => 0,
        Align::Center => leftover / 2,
        Align::End => leftover,
        Align::SpaceBetween => 0,
        Align::SpaceAround => if n > 0 {
            (leftover / n) / 2
        } else {
            0
        },
        Align::SpaceEvenly => leftover / (n + 1),
    }
}

/// The space added to every gap between two children, of `leftover` space
/// spread over `n` children in the flow.
#[verifier::opaque]
pub open spec fn between_space(align: Align, leftover: int, n: int) -> int {
    match align {
        Align::SpaceBetween => if n > 1 {
            leftover / (n - 1)
        } else {
            0
        },
        Align::SpaceAround => if n > 0 {
            leftover / n
        } else {
            0
        },
        Align::SpaceEvenly => leftover / (n + 1),
        _ => 0,
    }
}

/// Where the child at position `upto` starts along `dir`: `start`, moved
/// on by every child in the flow before it, the gap and the space between.
pub open spec fn cursor_at(
    kids: Seq<Element>,
    dir: ContainerDirection,
    main_avail: int,
    rule: FillRule,
    cross_avail: int,
    start: int,
    gap: int,
    between: int,
    upto: int,
) -> int
    decreases kids, 1int, upto,
{
    if upto <= 0 || upto > kids.len() {
        start
    } else if kids[upto - 1].spec_style().spec_in_flow() {
        saturate(
            cursor_at(kids, dir, main_avail, rule, cross_avail, start, gap, between, upto - 1)
                + flow_node(
                kids[upto - 1],
                dir,
                offer(kids[upto - 1], dir, main_avail, rule),
                cross_avail,
            ).outer_on(dir) + gap + between,
        )
    } else {
        cursor_at(kids, dir, main_avail, rule, cross_avail, start, gap, between, upto - 1)
    }
}

/// What the flow of a container comes to, once its own request and those
/// of its children are resolved.
pub struct FlowPlan {
    /// What a child that is no `Fill` child is offered along the direction:
    /// the inner extent less the gaps.
    pub main_avail: int,
    /// What a child is offered across the direction: the inner extent.
    pub cross_avail: int,
    /// The number of children in the flow.
    pub n_flow: int,
    /// What the gaps between them take.
    pub gaps: int,
    /// How what is left along the direction is split among the `Fill`
    /// children.
    pub rule: FillRule,
    /// The resolved extent of the container along its direction.
    pub own_main: int,
    /// The resolved extent of the container across its direction.
    pub own_cross: int,
    /// Where the first child starts along the direction.
    pub start: int,
    /// What is added to every gap.
    pub between: int,
    /// What the padding leaves of the container across its direction.
    pub cross_room: int,
}

/// The inner extent of a container on an axis, of which it is offered
/// `avail`: its request resolved against the offer, with the offer as its
/// natural extent, less its padding on that axis, and never negative.
pub open spec fn inner_on(style: Style, axis: ContainerDirection, avail: int) -> int {
    inner_extent_spec(
        resolved_extent(
            style.spec_size_on(axis),
            avail,
            avail,
            style.spec_min_on(axis),
            style.spec_max_on(axis),
        ),
        style.padding.spec_before(axis) as int,
        style.padding.spec_after(axis) as int,
    )
}

/// What a container offers its children, before any of them is arranged.
pub struct FlowOffer {
    /// What a child that is no `Fill` child is offered along the direction:
    /// the inner extent less the gaps.
    pub main_avail: int,
    /// What a child is offered across the direction: the inner extent.
    pub cross_avail: int,
    /// What the gaps between the children in the flow take.
    pub gaps: int,
}

/// What a container of direction `dir` that is offered `aw` by `ah` offers
/// its children, `n_flow` of which are in the flow. Its own request is
/// resolved against what it is offered, with that offer as its natural
/// extent; the padding comes off on both axes, and along the direction the
/// gaps come off too. Nothing of this is negative.
#[verifier::opaque]
pub open spec fn flow_offer(style: Style, dir: ContainerDirection, aw: int, ah: int, n_flow: int) -> FlowOffer {
    let cross = dir.spec_cross();
    let gaps = gaps_total(style.gap as int, n_flow);
    FlowOffer {
        main_avail: at_least_zero(saturate(inner_on(style, dir, along(dir, aw, ah)) - gaps)),
        cross_avail: inner_on(style, cross, along(cross, aw, ah)),
        gaps,
    }
}

/// The size of a container and the spacing of its children, once the
/// children are arranged.
pub struct FlowFrame {
    /// The resolved extent of the container along its direction.
    pub own_main: int,
    /// The resolved extent of the container across its direction.
    pub own_cross: int,
    /// Where the first child starts along the direction.
    pub start: int,
    /// What is added to every gap.
    pub between: int,
    /// What the padding leaves of the container across its direction.
    pub cross_room: int,
}

/// The size of a container of direction `dir` that is offered `aw` by `ah`,
/// whose `n_flow` children in the flow take `content_main` along the
/// direction, gaps of `gaps` between them, and at most `tallest` across it.
///
/// The natural extent of the container is that of its children and its
/// padding. What its resolved extent leaves along the direction, beyond
/// what the children and the gaps take, is spread by its alignment along
/// the direction: in front of the first child and into the gaps.
#[verifier::opaque]
pub open spec fn flow_frame(
    style: Style,
    dir: ContainerDirection,
    aw: int,
    ah: int,
    n_flow: int,
    gaps: int,
    content_main: int,
    tallest: int,
) -> FlowFrame {
    let cross = dir.spec_cross();
    let pb = style.padding.spec_before(dir) as int;
    let pa = style.padding.spec_after(dir) as int;
    let pbc = style.padding.spec_before(cross) as int;
    let pac = style.padding.spec_after(cross) as int;
    let content = saturate(content_main + gaps);
    let own_main = resolved_extent(
        style.spec_size_on(dir),
        saturate(pb + content + pa),
        along(dir, aw, ah),
        style.spec_min_on(dir),
        style.spec_max_on(dir),
    );
    let own_cross = resolved_extent(
        style.spec_size_on(cross),
        saturate(pbc + tallest + pac),
        along(cross, aw, ah),
        style.spec_min_on(cross),
        style.spec_max_on(cross),
    );
    let leftover = at_least_zero(saturate(inner_extent_spec(own_main, pb, pa) - content));
    FlowFrame {
        own_main,
        own_cross,
        start: saturate(pb + lead_space(style.spec_align_on(dir), leftover, n_flow)),
        between: between_space(style.spec_align_on(dir), leftover, n_flow),
        cross_room: inner_extent_spec(own_cross, pbc, pac),
    }
}

/// The flow of a container of direction `dir` that is offered `aw` by `ah`.
pub open spec fn plan_flow(
    style: Style,
    kids: Seq<Element>,
    dir: ContainerDirection,
    aw: int,
    ah: int,
) -> FlowPlan
    decreases kids, 2int, 0int,
{
    let len = kids.len() as int;
    let n_flow = flow_count(kids, len);
    let o = flow_offer(style, dir, aw, ah, n_flow);
    let rule = fill_rule(
        o.main_avail,
        fixed_sum(kids, dir, o.main_avail, o.cross_avail, len),
        fill_count(kids, dir, len),
        fill_weight(kids, dir, len),
        weights_even(kids, dir, len),
    );
    let f = flow_frame(
        style,
        dir,
        aw,
        ah,
        n_flow,
        o.gaps,
        content_sum(kids, dir, o.main_avail, rule, o.cross_avail, len),
        cross_max(kids, dir, o.main_avail, rule, o.cross_avail, len),
    );
    FlowPlan {
        main_avail: o.main_avail,
        cross_avail: o.cross_avail,
        n_flow,
        gaps: o.gaps,
        rule,
        own_main: f.own_main,
        own_cross: f.own_cross,
        start: f.start,
        between: f.between,
        cross_room: f.cross_room,
    }
}

/// An arranged child in the flow, moved to its place relative to the
/// origin of its container: to `cursor` along the direction; across it,
/// behind the container's padding, moved by its alignment in the
/// `cross_room` the container has. The child's own alignment, where it has
/// one, goes before the container's.
pub open spec fn placed_node(
    style: Style,
    kid: Element,
    dir: ContainerDirection,
    n: NodeView,
    cross_room: int,
    cursor: int,
) -> NodeView {
    let cross = dir.spec_cross();
    let align = match kid.spec_style().align_self {
        Some(a) => a,
        None => style.spec_align_on(cross),
    };
    let main_pos = saturate(cursor + n.pos_on(dir));
    let cross_pos = saturate(
        style.padding.spec_before(cross) + align_offset_spec(align, cross_room, n.outer_on(cross))
            + n.pos_on(cross),
    );
    n.at(width_of(dir, main_pos, cross_pos), height_of(dir, main_pos, cross_pos))
}

/// A child outside the flow: arranged in what its inset leaves of its
/// container, which is `own_w` by `own_h`, and put at its left and top
/// inset relative to the container's origin.
pub open spec fn absolute_node(kid: Element, own_w: int, own_h: int) -> NodeView
    decreases kid, 1int, 0int,
{
    let ks = kid.spec_style();
    let n = arrange_spec(
        kid,
        inner_extent_spec(own_w, ks.inset.left as int, ks.inset.right as int),
        inner_extent_spec(own_h, ks.inset.top as int, ks.inset.bottom as int),
    );
    n.at(saturate(ks.inset.left + n.x), saturate(ks.inset.top + n.y))
}

/// A child of a container, arranged and put where it belongs relative to
/// the container's origin. A child in the flow is offered `main_offer`
/// along the direction and `cross_avail` across it.
pub open spec fn placed_child(
    style: Style,
    kid: Element,
    dir: ContainerDirection,
    main_offer: int,
    cross_avail: int,
    cross_room: int,
    own_w: int,
    own_h: int,
    cursor: int,
) -> NodeView
    decreases kid, 2int, 0int,
{
    if kid.spec_style().spec_in_flow() {
        placed_node(
            style,
            kid,
            dir,
            flow_node(kid, dir, main_offer, cross_avail),
            cross_room,
            cursor,
        )
    } else {
        absolute_node(kid, own_w, own_h)
    }
}

/// The child at position `i` of a container whose flow is `p`, in its
/// place.
pub open spec fn child_view(
    style: Style,
    kids: Seq<Element>,
    dir: ContainerDirection,
    p: FlowPlan,
    i: int,
) -> NodeView
    decreases kids, 2int, 0int,
{
    if 0 <= i < kids.len() {
        placed_child(
            style,
            kids[i],
            dir,
            offer(kids[i], dir, p.main_avail, p.rule),
            p.cross_avail,
            p.cross_room,
            width_of(dir, p.own_main, p.own_cross),
            height_of(dir, p.own_main, p.own_cross),
            cursor_at(
                kids,
                dir,
                p.main_avail,
                p.rule,
                p.cross_avail,
                p.start,
                style.gap as int,
                p.between,
                i,
            ),
        )
    } else {
        empty_view()
    }
}

/// A row or column arranged in the extent it is offered.
pub open spec fn container_view(
    style: Style,
    kids: Seq<Element>,
    dir: ContainerDirection,
    aw: int,
    ah: int,
) -> NodeView
    decreases kids, 3int, 0int,
{
    let p = plan_flow(style, kids, dir, aw, ah);
    NodeView {
        x: 0,
        y: 0,
        w: width_of(dir, p.own_main, p.own_cross),
        h: height_of(dir, p.own_main, p.own_cross),
        style,
        kind: KindView::Children(Seq::new(kids.len(), |i: int| child_view(style, kids, dir, p, i))),
    }
}

/// An arranged node put at an origin: its own origin and those of all its
/// descendants become absolute.
pub open spec fn place_spec(n: NodeView, ox: int, oy: int) -> NodeView
    decreases n,
{
    let x = saturate(ox + n.x);
    let y = saturate(oy + n.y);
    NodeView {
        x,
        y,
        w: n.w,
        h: n.h,
        style: n.style,
        kind: match n.kind {
            KindView::Children(c) => KindView::Children(
                Seq::new(
                    c.len(),
                    |i: int|
                        if 0 <= i < c.len() {
                            place_spec(c[i], x, y)
                        } else {
                            empty_view()
                        },
                ),
            ),
            other => other,
        },
    }
}

/// The layout of an element whose parent's origin is `(x, y)` and which is
/// offered `aw` by `ah`: absolute, final geometry for every node.
pub open spec fn layout_spec(e: Element, x: int, y: int, aw: int, ah: int) -> NodeView {
    place_spec(arrange_spec(e, aw, ah), x, y)
}

/// Whether the element asks for `Fill` on an axis. The height request of a
/// text does not count: a text never fills along the vertical axis.
pub fn is_fill_on(e: &Element, axis: ContainerDirection) -> (r: bool)
    ensures
        r == is_fill(*e, axis),
{
    let is_text_height: bool = match e {
        Element::Text { .. } => match axis {
            ContainerDirection::Vertical => true,
            ContainerDirection::Horizontal => false,
        },
        _ => false,
    };
    if is_text_height {
        false
    } else {
        match e.style().size_on(axis) {
            Size::Fill => true,
            _ => false,
        }
    }
}

/// Whether the element asks for `Fill` as its width.
pub fn is_fill_w(e: &Element) -> (r: bool)
    ensures
        r == is_fill(*e, ContainerDirection::Horizontal),
{
    is_fill_on(e, ContainerDirection::Horizontal)
}

/// The size of a leaf in the extent it is offered.
fn leaf_size(e: &Element, aw: i32, ah: i32) -> (r: (i32, i32))
    ensures
        r.0 as int == leaf_view(*e, aw as int, ah as int, KindView::Empty).w,
        r.1 as int == leaf_view(*e, aw as int, ah as int, KindView::Empty).h,
{
    let s = e.style();
    let (cw, ch): (i32, i32) = match e {
        Element::Text { measured_w, measured_h, .. } => (*measured_w, *measured_h),
        Element::Button { label_w, label_h, .. } => (
            sat_add(*label_w, BUTTON_PAD_W),
            sat_add(*label_h, BUTTON_PAD_H),
        ),
        _ => (0, 0),
    };
    let w: i32 = resolve_clamped(
        s.width,
        cw,
        inner_extent(aw, s.padding.left, s.padding.right),
        s.min_width,
        s.max_width,
    );
    let h: i32 = match e {
        Element::Text { .. } => ch,
        _ => resolve_clamped(
            s.height,
            ch,
            inner_extent(ah, s.padding.top, s.padding.bottom),
            s.min_height,
            s.max_height,
        ),
    };
    (w, h)
}

/// Arranges an element in the extent it is offered: every node is sized, and
/// its origin is relative to the origin of its parent.
pub fn arrange(e: &Element, aw: i32, ah: i32) -> (n: LayoutNode)
    ensures
        n@ == arrange_spec(*e, aw as int, ah as int),
    decreases e, 0int,
{
    reveal_with_fuel(node_view, 1);
    reveal_with_fuel(arrange_spec, 1);
    match e {
        Element::Empty => LayoutNode::empty(),
        Element::Rect { color, hover_color, style, callbacks } => {
            let (w, h) = leaf_size(e, aw, ah);
            LayoutNode {
                x: style.padding.left,
                y: style.padding.top,
                w,
                h,
                style: *style,
                kind: LayoutKind::Rect {
                    color: *color,
                    hover_color: *hover_color,
                    hovered: false,
                    callbacks: *callbacks,
                },
            }
        },
        Element::Text { content, color, font, style, .. } => {
            let (w, h) = leaf_size(e, aw, ah);
            LayoutNode {
                x: style.padding.left,
                y: style.padding.top,
                w,
                h,
                style: *style,
                kind: LayoutKind::Text { content: content.clone(), color: *color, font: *font },
            }
        },
        Element::Button { label, label_w, label_h, style, callbacks } => {
            let (w, h) = leaf_size(e, aw, ah);
            LayoutNode {
                x: style.padding.left,
                y: style.padding.top,
                w,
                h,
                style: *style,
                kind: LayoutKind::Button {
                    label: label.clone(),
                    label_w: *label_w,
                    label_h: *label_h,
                    hovered: false,
                    callbacks: *callbacks,
                },
            }
        },
        Element::Row { style, children } => arrange_container(
            style,
            children,
            ContainerDirection::Horizontal,
            aw,
            ah,
        ),
        Element::Column { style, children } => arrange_container(
            style,
            children,
            ContainerDirection::Vertical,
            aw,
            ah,
        ),
    }
}

/// Puts an arranged node at an origin: its own origin and those of all its
/// descendants become absolute.
pub fn place(node: &mut LayoutNode, ox: i32, oy: i32)
    ensures
        final(node)@ == place_spec(old(node)@, ox as int, oy as int),
    decreases *old(node),
{
    reveal_with_fuel(node_view, 1);
    let ghost before = node@;
    let x: i32 = sat_add(ox, node.x);
    let y: i32 = sat_add(oy, node.y);
    node.x = x;
    node.y = y;
    match &mut node.kind {
        LayoutKind::Children(nodes) => {
            place_all(nodes, x, y);
        },
        _ => {},
    }
    proof {
        reveal_with_fuel(node_view, 1);
        if before.kind is Children {
            assert(node@.kind->Children_0 =~= place_spec(before, ox as int, oy as int).kind->Children_0);
        }
    }
}

/// Puts every node of a list at the same origin.
fn place_all(nodes: &mut Vec<LayoutNode>, ox: i32, oy: i32)
    ensures
        final(nodes)@.len() == old(nodes)@.len(),
        forall|j: int|
            0 <= j < old(nodes)@.len() ==> (#[trigger] final(nodes)@[j])@ == place_spec(
                old(nodes)@[j]@,
                ox as int,
                oy as int,
            ),
    decreases *old(nodes),
{
    let mut i: usize = 0;
    while i < nodes.len()
        invariant
            i <= nodes@.len(),
            nodes@.len() == old(nodes)@.len(),
            forall|j: int|
                0 <= j < i ==> (#[trigger] nodes@[j])@ == place_spec(
                    old(nodes)@[j]@,
                    ox as int,
                    oy as int,
                ),
            forall|j: int| i <= j < nodes@.len() ==> nodes@[j] == old(nodes)@[j],
        decreases nodes@.len() - i,
    {
        place(&mut nodes[i], ox, oy);
        i += 1;
    }
}

/// Lays out an element whose parent's origin is `(x, y)` and which is
/// offered `avail_w` by `avail_h`. Every node of the result has absolute,
/// final geometry.
pub fn layout(e: &Element, x: i32, y: i32, avail_w: i32, avail_h: i32) -> (n: LayoutNode)
    ensures
        n@ == layout_spec(*e, x as int, y as int, avail_w as int, avail_h as int),
{
    let mut node = arrange(e, avail_w, avail_h);
    place(&mut node, x, y);
    node
}

} // verus!
