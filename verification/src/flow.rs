//! The flow of a container: how a row or column sizes and places its
//! children. Each pass over the children is a function of its own.

use vstd::prelude::*;
use crate::element::Element;
use crate::layout::{
    absolute_node, arrange, between_space, child_view, container_view, content_sum, cross_max,
    cursor_at, fill_count, fill_rule, fill_weight, first_fill_weight, fixed_sum, flow_frame,
    flow_node, flow_offer, height_of, is_fill, is_fill_on, lead_space, offer, placed_child,
    placed_node, plan_flow, share_of, weighted_share, weights_even, width_of, FillRule,
};
use crate::measure::{flow_count, gaps};
use crate::node::{lemma_view_moved, lemma_view_rect, node_view, LayoutKind, LayoutNode};
use crate::size::{align_offset, resolve_clamped, Align};
use crate::style::{ContainerDirection, Style};
use crate::units::{inner_extent, max_i32, sat, sat_add, sat_add3, sat_sub, saturate};

verus! {

/// `v` split into `n` equal parts, rounded down.
fn div_count(v: i32, n: u128) -> (r: i32)
    requires
        v >= 0,
        n > 0,
    ensures
        r as int == v as int / n as int,
        0 <= r <= v,
{
    let q: u128 = (v as u128) / n;
    assert(q <= v as int) by (nonlinear_arith)
        requires
            q == (v as int) / (n as int),
            v >= 0,
            n > 0,
    ;
    q as i32
}

/// How what the other children leave is split among the `Fill` children.
fn make_rule(main_avail: i32, fixed: i32, fills: usize, total_weight: u128, even: bool) -> (r: FillRule)
    ensures
        r == fill_rule(
            main_avail as int,
            fixed as int,
            fills as int,
            total_weight as int,
            even,
        ),
        r.remaining >= 0,
        r.share >= 0,
{
    reveal(share_of);
    let spare: i32 = sat_sub(main_avail, fixed);
    let remaining: i32 = if spare > 0 {
        spare
    } else {
        0
    };
    let share: i32 = if fills > 0 {
        div_count(remaining, fills as u128)
    } else {
        0
    };
    FillRule { remaining, share, total_weight, weighted: !even }
}

/// What a child is offered along the direction of its container.
fn offer_of(kid: &Element, dir: ContainerDirection, main_avail: i32, rule: &FillRule) -> (r: i32)
    requires
        rule.remaining >= 0,
    ensures
        r as int == offer(*kid, dir, main_avail as int, *rule),
{
    reveal(weighted_share);
    if !is_fill_on(kid, dir) {
        main_avail
    } else if rule.weighted {
        if rule.total_weight > 0 {
            let grow: u32 = kid.style().grow;
            assert(0 <= rule.remaining as int * grow as int <= 0x8000_0000 * 0x1_0000_0000)
                by (nonlinear_arith)
                requires
                    0 <= rule.remaining as int <= 0x8000_0000,
                    0 <= grow as int <= 0x1_0000_0000,
            ;
            let part: u128 = (rule.remaining as u128 * grow as u128) / rule.total_weight;
            if part > 2147483647u128 {
                2147483647i32
            } else {
                part as i32
            }
        } else {
            0
        }
    } else {
        rule.share
    }
}

/// The space in front of the first child.
fn lead(align: Align, leftover: i32, n: usize) -> (r: i32)
    requires
        leftover >= 0,
    ensures
        r as int == lead_space(align, leftover as int, n as int),
        0 <= r <= leftover,
{
    reveal(lead_space);
    match align {
        Align::Start => 0,
        Align::Center => div_count(leftover, 2),
        Align::End => leftover,
        Align::SpaceBetween => 0,
        Align::SpaceAround => if n > 0 {
            div_count(div_count(leftover, n as u128), 2)
        } else {
            0
        },
        Align::SpaceEvenly => div_count(leftover, n as u128 + 1),
    }
}

/// The space added to every gap.
fn between(align: Align, leftover: i32, n: usize) -> (r: i32)
    requires
        leftover >= 0,
    ensures
        r as int == between_space(align, leftover as int, n as int),
        0 <= r <= leftover,
{
    reveal(between_space);
    match align {
        Align::SpaceBetween => if n > 1 {
            div_count(leftover, (n - 1) as u128)
        } else {
            0
        },
        Align::SpaceAround => if n > 0 {
            div_count(leftover, n as u128)
        } else {
            0
        },
        Align::SpaceEvenly => div_count(leftover, n as u128 + 1),
        _ => 0,
    }
}

/// What a pass over the children counts: how many are in the flow, how
/// many of them fill, what the grow weights of those sum to, and whether
/// these weights are all the same.
struct FlowCount {
    n_flow: usize,
    fills: usize,
    total_weight: u128,
    even: bool,
}

/// Counts the children in the flow and those of them that fill, and adds up
/// the grow weights of the latter.
fn count_flow(kids: &Vec<Element>, dir: ContainerDirection) -> (r: FlowCount)
    ensures
        r.n_flow as int == flow_count(kids@, kids@.len() as int),
        r.fills as int == fill_count(kids@, dir, kids@.len() as int),
        r.total_weight as int == fill_weight(kids@, dir, kids@.len() as int),
        r.even == weights_even(kids@, dir, kids@.len() as int),
{
    let mut n_flow: usize = 0;
    let mut fills: usize = 0;
    let mut total_weight: u128 = 0;
    let mut first: Option<u32> = None;
    let mut even: bool = true;
    let mut i: usize = 0;
    while i < kids.len()
        invariant
            i <= kids@.len(),
            n_flow <= i,
            fills <= i,
            n_flow as int == flow_count(kids@, i as int),
            fills as int == fill_count(kids@, dir, i as int),
            total_weight as int == fill_weight(kids@, dir, i as int),
            total_weight <= i * 0xffff_ffff,
            first == first_fill_weight(kids@, dir, i as int),
            even == weights_even(kids@, dir, i as int),
        decreases kids@.len() - i,
    {
        let kid = &kids[i];
        if kid.style().in_flow() {
            n_flow += 1;
            if is_fill_on(kid, dir) {
                let grow: u32 = kid.style().grow;
                fills += 1;
                assert(i * 0xffff_ffff + 0xffff_ffff <= 0xffff_ffff_ffff_ffff * 0x1_0000_0000)
                    by (nonlinear_arith)
                    requires
                        0 <= i <= 0xffff_ffff_ffff_ffff,
                ;
                total_weight = total_weight + grow as u128;
                match first {
                    Some(w) => {
                        if w != grow {
                            even = false;
                        }
                    },
                    None => {
                        first = Some(grow);
                    },
                }
            }
        }
        assert((i + 1) * 0xffff_ffff == i * 0xffff_ffff + 0xffff_ffff) by (nonlinear_arith);
        i += 1;
    }
    FlowCount { n_flow, fills, total_weight, even }
}

/// Arranges a child for the flow of a container of direction `dir`.
fn arrange_in_flow(kid: &Element, dir: ContainerDirection, main: i32, cross: i32) -> (n: LayoutNode)
    ensures
        n@ == flow_node(*kid, dir, main as int, cross as int),
    decreases kid, 1int,
{
    match dir {
        ContainerDirection::Horizontal => arrange(kid, main, cross),
        ContainerDirection::Vertical => arrange(kid, cross, main),
    }
}

/// Arranges the children in the flow that are no `Fill` children, and adds
/// up what they take. Every other child gets an empty node in its place,
/// which a later pass replaces.
fn arrange_fixed(kids: &Vec<Element>, dir: ContainerDirection, main_avail: i32, cross_avail: i32) -> (r: (
    Vec<LayoutNode>,
    i32,
))
    ensures
        r.0@.len() == kids@.len(),
        r.1 as int == fixed_sum(
            kids@,
            dir,
            main_avail as int,
            cross_avail as int,
            kids@.len() as int,
        ),
        forall|j: int|
            0 <= j < kids@.len() && kids@[j].spec_style().spec_in_flow() && !is_fill(kids@[j], dir)
                ==> (#[trigger] r.0@[j])@ == flow_node(
                kids@[j],
                dir,
                main_avail as int,
                cross_avail as int,
            ),
    decreases kids, 2int,
{
    let mut nodes: Vec<LayoutNode> = Vec::new();
    let mut fixed: i32 = 0;
    let mut i: usize = 0;
    while i < kids.len()
        invariant
            i <= kids@.len(),
            nodes@.len() == i,
            fixed as int == fixed_sum(kids@, dir, main_avail as int, cross_avail as int, i as int),
            forall|j: int|
                0 <= j < i && kids@[j].spec_style().spec_in_flow() && !is_fill(kids@[j], dir)
                    ==> (#[trigger] nodes@[j])@ == flow_node(
                    kids@[j],
                    dir,
                    main_avail as int,
                    cross_avail as int,
                ),
        decreases kids@.len() - i,
    {
        let kid = &kids[i];
        if kid.style().in_flow() && !is_fill_on(kid, dir) {
            let node = arrange_in_flow(kid, dir, main_avail, cross_avail);
            fixed = sat_add(fixed, node.outer_on(dir));
            nodes.push(node);
        } else {
            nodes.push(LayoutNode::empty());
        }
        i += 1;
    }
    (nodes, fixed)
}

/// Arranges the `Fill` children in the flow, each in its share.
fn arrange_fills(
    kids: &Vec<Element>,
    dir: ContainerDirection,
    nodes: &mut Vec<LayoutNode>,
    main_avail: i32,
    rule: FillRule,
    cross_avail: i32,
)
    requires
        rule.remaining >= 0,
        old(nodes)@.len() == kids@.len(),
        forall|j: int|
            0 <= j < kids@.len() && kids@[j].spec_style().spec_in_flow() && !is_fill(kids@[j], dir)
                ==> (#[trigger] old(nodes)@[j])@ == flow_node(
                kids@[j],
                dir,
                main_avail as int,
                cross_avail as int,
            ),
    ensures
        final(nodes)@.len() == kids@.len(),
        forall|j: int|
            0 <= j < kids@.len() && kids@[j].spec_style().spec_in_flow() ==> (#[trigger] final(nodes)@[j])@ == flow_node(
                kids@[j],
                dir,
                offer(kids@[j], dir, main_avail as int, rule),
                cross_avail as int,
            ),
    decreases kids, 2int,
{
    let mut i: usize = 0;
    while i < kids.len()
        invariant
            i <= kids@.len(),
            rule.remaining >= 0,
            nodes@.len() == kids@.len(),
            forall|j: int|
                0 <= j < kids@.len() && kids@[j].spec_style().spec_in_flow() && (j < i || !is_fill(
                    kids@[j],
                    dir,
                )) ==> (#[trigger] nodes@[j])@ == flow_node(
                    kids@[j],
                    dir,
                    offer(kids@[j], dir, main_avail as int, rule),
                    cross_avail as int,
                ),
        decreases kids@.len() - i,
    {
        let kid = &kids[i];
        if kid.style().in_flow() && is_fill_on(kid, dir) {
            let node = arrange_in_flow(kid, dir, offer_of(kid, dir, main_avail, &rule), cross_avail);
            nodes[i] = node;
        }
        i += 1;
    }
}

/// Adds up what the arranged children in the flow take along the
/// direction, and finds the largest of them across it.
fn sum_content(
    kids: &Vec<Element>,
    dir: ContainerDirection,
    nodes: &Vec<LayoutNode>,
    main_avail: i32,
    rule: FillRule,
    cross_avail: i32,
) -> (r: (i32, i32))
    requires
        nodes@.len() == kids@.len(),
        forall|j: int|
            0 <= j < kids@.len() && kids@[j].spec_style().spec_in_flow() ==> (#[trigger] nodes@[j])@
                == flow_node(
                kids@[j],
                dir,
                offer(kids@[j], dir, main_avail as int, rule),
                cross_avail as int,
            ),
    ensures
        r.0 as int == content_sum(
            kids@,
            dir,
            main_avail as int,
            rule,
            cross_avail as int,
            kids@.len() as int,
        ),
        r.1 as int == cross_max(
            kids@,
            dir,
            main_avail as int,
            rule,
            cross_avail as int,
            kids@.len() as int,
        ),
{
    let mut content_main: i32 = 0;
    let mut tallest: i32 = 0;
    let mut i: usize = 0;
    while i < kids.len()
        invariant
            i <= kids@.len(),
            nodes@.len() == kids@.len(),
            content_main as int == content_sum(
                kids@,
                dir,
                main_avail as int,
                rule,
                cross_avail as int,
                i as int,
            ),
            tallest as int == cross_max(
                kids@,
                dir,
                main_avail as int,
                rule,
                cross_avail as int,
                i as int,
            ),
            forall|j: int|
                0 <= j < kids@.len() && kids@[j].spec_style().spec_in_flow() ==> (
                #[trigger] nodes@[j])@ == flow_node(
                    kids@[j],
                    dir,
                    offer(kids@[j], dir, main_avail as int, rule),
                    cross_avail as int,
                ),
        decreases kids@.len() - i,
    {
        if kids[i].style().in_flow() {
            assert(nodes@[i as int]@ == flow_node(
                kids@[i as int],
                dir,
                offer(kids@[i as int], dir, main_avail as int, rule),
                cross_avail as int,
            ));
            content_main = sat_add(content_main, nodes[i].outer_on(dir));
            tallest = max_i32(tallest, nodes[i].outer_on(dir.cross()));
        }
        i += 1;
    }
    (content_main, tallest)
}

/// Moves an arranged child in the flow to its place: to `cursor` along the
/// direction, and across it behind the container's padding, moved by its
/// alignment. Hands back the extent the child takes along the direction.
fn put_in_flow(
    node: &mut LayoutNode,
    style: &Style,
    kid: &Element,
    dir: ContainerDirection,
    cross_room: i32,
    cursor: i32,
) -> (outer_main: i32)
    requires
        kid.spec_style().spec_in_flow(),
    ensures
        outer_main as int == old(node)@.outer_on(dir),
        final(node)@ == placed_node(*style, *kid, dir, old(node)@, cross_room as int, cursor as int),
{
    let cross = dir.cross();
    let outer_main: i32 = node.outer_on(dir);
    let outer_cross: i32 = node.outer_on(cross);
    let align: Align = match kid.style().align_self {
        Some(a) => a,
        None => style.align_on(cross),
    };
    let shift: i32 = align_offset(align, cross_room, outer_cross);
    let pbc: i32 = style.padding.before(cross);
    let (nx, ny): (i32, i32) = match dir {
        ContainerDirection::Horizontal => (sat_add(cursor, node.x), sat_add3(pbc, shift, node.y)),
        ContainerDirection::Vertical => (sat_add3(pbc, shift, node.x), sat_add(cursor, node.y)),
    };
    let ghost before = *node;
    node.x = nx;
    node.y = ny;
    proof {
        lemma_view_rect(before);
        lemma_view_moved(before, *node);
    }
    outer_main
}

/// Arranges a child outside the flow in what its inset leaves of a
/// container of `own_w` by `own_h`, and puts it at its left and top inset.
fn arrange_absolute(kid: &Element, own_w: i32, own_h: i32) -> (n: LayoutNode)
    ensures
        n@ == absolute_node(*kid, own_w as int, own_h as int),
    decreases kid, 1int,
{
    let ks = kid.style();
    let mut node = arrange(
        kid,
        inner_extent(own_w, ks.inset.left, ks.inset.right),
        inner_extent(own_h, ks.inset.top, ks.inset.bottom),
    );
    let ghost before = node;
    let nx: i32 = sat_add(ks.inset.left, node.x);
    let ny: i32 = sat_add(ks.inset.top, node.y);
    node.x = nx;
    node.y = ny;
    proof {
        lemma_view_rect(before);
        lemma_view_moved(before, node);
    }
    node
}

/// Puts the child at position `i` in its place: an arranged child in the
/// flow is moved to the cursor, a child outside the flow is arranged by its
/// inset. Hands back the cursor for the next child.
fn put_one(
    style: &Style,
    kids: &Vec<Element>,
    dir: ContainerDirection,
    nodes: &mut Vec<LayoutNode>,
    i: usize,
    main_offer: Ghost<int>,
    cross_avail: Ghost<int>,
    cross_room: i32,
    own_w: i32,
    own_h: i32,
    extra: i32,
    cursor: i32,
) -> (next: i32)
    requires
        i < kids@.len(),
        old(nodes)@.len() == kids@.len(),
        kids@[i as int].spec_style().spec_in_flow() ==> old(nodes)@[i as int]@ == flow_node(
            kids@[i as int],
            dir,
            main_offer@,
            cross_avail@,
        ),
    ensures
        final(nodes)@.len() == kids@.len(),
        forall|j: int| 0 <= j < kids@.len() && j != i ==> final(nodes)@[j] == old(nodes)@[j],
        final(nodes)@[i as int]@ == placed_child(
            *style,
            kids@[i as int],
            dir,
            main_offer@,
            cross_avail@,
            cross_room as int,
            own_w as int,
            own_h as int,
            cursor as int,
        ),
        next as int == if kids@[i as int].spec_style().spec_in_flow() {
            saturate(
                cursor + flow_node(kids@[i as int], dir, main_offer@, cross_avail@).outer_on(dir)
                    + style.gap + extra,
            )
        } else {
            cursor as int
        },
    decreases kids, 1int,
{
    let kid = &kids[i];
    if kid.style().in_flow() {
        let outer_main: i32 = put_in_flow(&mut nodes[i], style, kid, dir, cross_room, cursor);
        sat(cursor as i64 + outer_main as i64 + style.gap as i64 + extra as i64)
    } else {
        let node = arrange_absolute(kid, own_w, own_h);
        nodes[i] = node;
        cursor
    }
}

/// Puts every arranged child in its place, and arranges the children
/// outside the flow in what their inset leaves of the container.
fn put_children(
    style: &Style,
    kids: &Vec<Element>,
    dir: ContainerDirection,
    nodes: &mut Vec<LayoutNode>,
    main_avail: i32,
    rule: FillRule,
    cross_avail: i32,
    cross_room: i32,
    own_w: i32,
    own_h: i32,
    start: i32,
    extra: i32,
)
    requires
        old(nodes)@.len() == kids@.len(),
        forall|j: int|
            0 <= j < kids@.len() && kids@[j].spec_style().spec_in_flow() ==> (#[trigger] old(nodes)@[j])@ == flow_node(
                kids@[j],
                dir,
                offer(kids@[j], dir, main_avail as int, rule),
                cross_avail as int,
            ),
    ensures
        final(nodes)@.len() == kids@.len(),
        forall|j: int|
            0 <= j < kids@.len() ==> (#[trigger] final(nodes)@[j])@ == placed_child(
                *style,
                kids@[j],
                dir,
                offer(kids@[j], dir, main_avail as int, rule),
                cross_avail as int,
                cross_room as int,
                own_w as int,
                own_h as int,
                cursor_at(
                    kids@,
                    dir,
                    main_avail as int,
                    rule,
                    cross_avail as int,
                    start as int,
                    style.gap as int,
                    extra as int,
                    j,
                ),
            ),
    decreases kids, 2int,
{
    let mut cursor: i32 = start;
    let mut i: usize = 0;
    while i < kids.len()
        invariant
            i <= kids@.len(),
            nodes@.len() == kids@.len(),
            cursor as int == cursor_at(
                kids@,
                dir,
                main_avail as int,
                rule,
                cross_avail as int,
                start as int,
                style.gap as int,
                extra as int,
                i as int,
            ),
            forall|j: int|
                i <= j < kids@.len() && kids@[j].spec_style().spec_in_flow() ==> (
                #[trigger] nodes@[j])@ == flow_node(
                    kids@[j],
                    dir,
                    offer(kids@[j], dir, main_avail as int, rule),
                    cross_avail as int,
                ),
            forall|j: int|
                0 <= j < i ==> (#[trigger] nodes@[j])@ == placed_child(
                    *style,
                    kids@[j],
                    dir,
                    offer(kids@[j], dir, main_avail as int, rule),
                    cross_avail as int,
                    cross_room as int,
                    own_w as int,
                    own_h as int,
                    cursor_at(
                        kids@,
                        dir,
                        main_avail as int,
                        rule,
                        cross_avail as int,
                        start as int,
                        style.gap as int,
                        extra as int,
                        j,
                    ),
                ),
        decreases kids@.len() - i,
    {
        let ghost main_offer = offer(kids@[i as int], dir, main_avail as int, rule);
        cursor = put_one(
            style,
            kids,
            dir,
            nodes,
            i,
            Ghost(main_offer),
            Ghost(cross_avail as int),
            cross_room,
            own_w,
            own_h,
            extra,
            cursor,
        );
        i += 1;
    }
}

/// What a container offers its children: along its direction to a child
/// that is no `Fill` child, across it to every child, and what the gaps
/// take.
fn offer_children(style: &Style, dir: ContainerDirection, aw: i32, ah: i32, n_flow: usize) -> (r: (
    i32,
    i32,
    i32,
))
    ensures
        r.0 as int == flow_offer(*style, dir, aw as int, ah as int, n_flow as int).main_avail,
        r.1 as int == flow_offer(*style, dir, aw as int, ah as int, n_flow as int).cross_avail,
        r.2 as int == flow_offer(*style, dir, aw as int, ah as int, n_flow as int).gaps,
{
    reveal(flow_offer);
    let cross = dir.cross();
    let (a_main, a_cross): (i32, i32) = match dir {
        ContainerDirection::Horizontal => (aw, ah),
        ContainerDirection::Vertical => (ah, aw),
    };
    let inner_main: i32 = inner_extent(
        resolve_clamped(style.size_on(dir), a_main, a_main, style.min_on(dir), style.max_on(dir)),
        style.padding.before(dir),
        style.padding.after(dir),
    );
    let cross_avail: i32 = inner_extent(
        resolve_clamped(
            style.size_on(cross),
            a_cross,
            a_cross,
            style.min_on(cross),
            style.max_on(cross),
        ),
        style.padding.before(cross),
        style.padding.after(cross),
    );
    let gaps: i32 = gaps(style.gap, n_flow);
    let reduced: i32 = sat_sub(inner_main, gaps);
    let main_avail: i32 = if reduced > 0 {
        reduced
    } else {
        0
    };
    (main_avail, cross_avail, gaps)
}

/// The size of the container and the spacing of its children: its extent
/// along and across its direction, where the first child starts, what is
/// added to every gap, and the room across the direction.
fn frame_children(
    style: &Style,
    dir: ContainerDirection,
    aw: i32,
    ah: i32,
    n_flow: usize,
    gaps: i32,
    content_main: i32,
    tallest: i32,
) -> (r: (i32, i32, i32, i32, i32))
    ensures
        ({
            let f = flow_frame(
                *style,
                dir,
                aw as int,
                ah as int,
                n_flow as int,
                gaps as int,
                content_main as int,
                tallest as int,
            );
            &&& r.0 as int == f.own_main
            &&& r.1 as int == f.own_cross
            &&& r.2 as int == f.start
            &&& r.3 as int == f.between
            &&& r.4 as int == f.cross_room
        }),
{
    reveal(flow_frame);
    let cross = dir.cross();
    let (a_main, a_cross): (i32, i32) = match dir {
        ContainerDirection::Horizontal => (aw, ah),
        ContainerDirection::Vertical => (ah, aw),
    };
    let pb: i32 = style.padding.before(dir);
    let pa: i32 = style.padding.after(dir);
    let pbc: i32 = style.padding.before(cross);
    let pac: i32 = style.padding.after(cross);
    let content: i32 = sat_add(content_main, gaps);
    let own_main: i32 = resolve_clamped(
        style.size_on(dir),
        sat_add3(pb, content, pa),
        a_main,
        style.min_on(dir),
        style.max_on(dir),
    );
    let own_cross: i32 = resolve_clamped(
        style.size_on(cross),
        sat_add3(pbc, tallest, pac),
        a_cross,
        style.min_on(cross),
        style.max_on(cross),
    );
    let room_main: i32 = inner_extent(own_main, pb, pa);
    let cross_room: i32 = inner_extent(own_cross, pbc, pac);
    let spare: i32 = sat_sub(room_main, content);
    let leftover: i32 = if spare > 0 {
        spare
    } else {
        0
    };
    let start: i32 = sat_add(pb, lead(style.align_on(dir), leftover, n_flow));
    let extra: i32 = between(style.align_on(dir), leftover, n_flow);
    (own_main, own_cross, start, extra, cross_room)
}

/// A container node whose children are those of the flow is the arranged
/// container.
proof fn lemma_container_view(
    style: Style,
    kids: Seq<Element>,
    dir: ContainerDirection,
    aw: int,
    ah: int,
    node: LayoutNode,
)
    requires
        node.x == 0,
        node.y == 0,
        node.style == style,
        node.kind is Children,
        node.w as int == width_of(
            dir,
            plan_flow(style, kids, dir, aw, ah).own_main,
            plan_flow(style, kids, dir, aw, ah).own_cross,
        ),
        node.h as int == height_of(
            dir,
            plan_flow(style, kids, dir, aw, ah).own_main,
            plan_flow(style, kids, dir, aw, ah).own_cross,
        ),
        node.kind->Children_0@.len() == kids.len(),
        forall|j: int|
            0 <= j < kids.len() ==> (#[trigger] node.kind->Children_0@[j])@ == child_view(
                style,
                kids,
                dir,
                plan_flow(style, kids, dir, aw, ah),
                j,
            ),
    ensures
        node@ == container_view(style, kids, dir, aw, ah),
{
    reveal_with_fuel(node_view, 1);
    assert(node@.kind->Children_0 =~= container_view(style, kids, dir, aw, ah).kind->Children_0);
}

/// Arranges a row or column: resolves what it offers its children, lets the
/// children that are no `Fill` children take what they need, splits the rest
/// equally among the `Fill` children, sizes the container, and puts every
/// child in its place.
pub fn arrange_container(
    style: &Style,
    kids: &Vec<Element>,
    dir: ContainerDirection,
    aw: i32,
    ah: i32,
) -> (n: LayoutNode)
    ensures
        n@ == container_view(*style, kids@, dir, aw as int, ah as int),
    decreases kids, 3int,
{
    let counted = count_flow(kids, dir);
    let n_flow: usize = counted.n_flow;
    let (main_avail, cross_avail, gaps) = offer_children(style, dir, aw, ah, n_flow);
    let (mut nodes, fixed) = arrange_fixed(kids, dir, main_avail, cross_avail);
    let rule = make_rule(main_avail, fixed, counted.fills, counted.total_weight, counted.even);
    arrange_fills(kids, dir, &mut nodes, main_avail, rule, cross_avail);
    let (content_main, tallest) = sum_content(kids, dir, &nodes, main_avail, rule, cross_avail);
    let (own_main, own_cross, start, extra, cross_room) = frame_children(
        style,
        dir,
        aw,
        ah,
        n_flow,
        gaps,
        content_main,
        tallest,
    );
    let (own_w, own_h): (i32, i32) = match dir {
        ContainerDirection::Horizontal => (own_main, own_cross),
        ContainerDirection::Vertical => (own_cross, own_main),
    };
    put_children(
        style,
        kids,
        dir,
        &mut nodes,
        main_avail,
        rule,
        cross_avail,
        cross_room,
        own_w,
        own_h,
        start,
        extra,
    );
    let node = LayoutNode { x: 0, y: 0, w: own_w, h: own_h, style: *style, kind: LayoutKind::Children(nodes) };
    proof {
        lemma_container_view(*style, kids@, dir, aw as int, ah as int, node);
    }
    node
}

} // verus!
