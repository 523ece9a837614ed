//! The measure pass: the natural size of every subtree, bottom-up and
//! without knowing what the parent will offer.

use vstd::prelude::*;
use crate::element::{Element, BUTTON_PAD_H, BUTTON_PAD_W};
use crate::size::{natural_extent, resolve_natural, Size};
use crate::style::ContainerDirection;
use crate::units::{max_i32, max_of, sat_add, sat_add3, saturate, times};

verus! {

/// The extent of the content of a leaf on one axis: what was measured for a
/// text, the measured label and the button's own padding for a button, and
/// nothing for a rectangle.
pub open spec fn content_extent(e: Element, axis: ContainerDirection) -> int {
    match e {
        Element::Text { measured_w, measured_h, .. } => match axis {
            ContainerDirection::Horizontal => measured_w as int,
            ContainerDirection::Vertical => measured_h as int,
        },
        Element::Button { label_w, label_h, .. } => match axis {
            ContainerDirection::Horizontal => saturate(label_w + BUTTON_PAD_W),
            ContainerDirection::Vertical => saturate(label_h + BUTTON_PAD_H),
        },
        _ => 0,
    }
}

/// The size request that counts for an element on an axis. It is the one of
/// its style, but for the height of a text: a text is as high as it was
/// shaped, whatever its style asks for, so its height request counts as
/// `Auto`.
pub open spec fn request_on(e: Element, axis: ContainerDirection) -> Size {
    if e is Text && axis == ContainerDirection::Vertical {
        Size::Auto
    } else {
        e.spec_style().spec_size_on(axis)
    }
}

/// The lower clamp that counts for an element on an axis: the one of its
/// style, and none for the height of a text.
pub open spec fn min_request_on(e: Element, axis: ContainerDirection) -> Option<i32> {
    if e is Text && axis == ContainerDirection::Vertical {
        None
    } else {
        e.spec_style().spec_min_on(axis)
    }
}

/// The upper clamp that counts for an element on an axis: the one of its
/// style, and none for the height of a text.
pub open spec fn max_request_on(e: Element, axis: ContainerDirection) -> Option<i32> {
    if e is Text && axis == ContainerDirection::Vertical {
        None
    } else {
        e.spec_style().spec_max_on(axis)
    }
}

/// The number of children in the flow among the first `upto`.
pub open spec fn flow_count(kids: Seq<Element>, upto: int) -> int
    decreases upto,
{
    if upto <= 0 || upto > kids.len() {
        0
    } else {
        flow_count(kids, upto - 1) + if kids[upto - 1].spec_style().spec_in_flow() {
            1int
        } else {
            0int
        }
    }
}

/// The space that the gaps between `n` children in the flow take.
#[verifier::opaque]
pub open spec fn gaps_total(gap: int, n: int) -> int {
    if n > 0 {
        saturate(gap * (n - 1))
    } else {
        0
    }
}

/// The natural extent of an element on one axis, padding included.
///
/// A leaf has the natural extent of its size request, around its content,
/// plus its padding; a text always has its shaped height plus its padding.
/// A row or column has, where its request is `Auto`, the
/// extent of its children in the flow: along its direction their sum and
/// the gaps between them, across it the largest of them, plus its padding.
/// A request that depends on the parent counts as zero.
pub open spec fn natural_on(e: Element, axis: ContainerDirection) -> int
    decreases e, 0int, 0int,
{
    let s = e.spec_style();
    match e {
        Element::Empty => 0,
        Element::Row { children, .. } => natural_extent(
            s.spec_size_on(axis),
            container_content(s.padding.spec_before(axis) as int, s.padding.spec_after(axis) as int,
                s.gap as int, children@, ContainerDirection::Horizontal, axis),
            s.spec_min_on(axis),
            s.spec_max_on(axis),
        ),
        Element::Column { children, .. } => natural_extent(
            s.spec_size_on(axis),
            container_content(s.padding.spec_before(axis) as int, s.padding.spec_after(axis) as int,
                s.gap as int, children@, ContainerDirection::Vertical, axis),
            s.spec_min_on(axis),
            s.spec_max_on(axis),
        ),
        _ => saturate(
            s.padding.spec_before(axis) + natural_extent(
                request_on(e, axis),
                content_extent(e, axis),
                min_request_on(e, axis),
                max_request_on(e, axis),
            ) + s.padding.spec_after(axis),
        ),
    }
}

/// The extent that the children of a container and its padding take on one
/// axis, where `dir` is the direction of the container.
pub open spec fn container_content(
    before: int,
    after: int,
    gap: int,
    kids: Seq<Element>,
    dir: ContainerDirection,
    axis: ContainerDirection,
) -> int
    decreases kids, 2int, 0int,
{
    if axis == dir {
        saturate(
            before + saturate(
                natural_sum(kids, axis, kids.len() as int) + gaps_total(
                    gap,
                    flow_count(kids, kids.len() as int),
                ),
            ) + after,
        )
    } else {
        saturate(before + natural_max(kids, axis, kids.len() as int) + after)
    }
}

/// The sum of the natural extents of the children in the flow among the
/// first `upto`, pinned to the `i32` range after every child.
pub open spec fn natural_sum(kids: Seq<Element>, axis: ContainerDirection, upto: int) -> int
    decreases kids, 1int, upto,
{
    if upto <= 0 || upto > kids.len() {
        0
    } else if kids[upto - 1].spec_style().spec_in_flow() {
        saturate(natural_sum(kids, axis, upto - 1) + natural_on(kids[upto - 1], axis))
    } else {
        natural_sum(kids, axis, upto - 1)
    }
}

/// The largest natural extent of the children in the flow among the first
/// `upto`, and at least zero.
pub open spec fn natural_max(kids: Seq<Element>, axis: ContainerDirection, upto: int) -> int
    decreases kids, 1int, upto,
{
    if upto <= 0 || upto > kids.len() {
        0
    } else if kids[upto - 1].spec_style().spec_in_flow() {
        max_of(natural_max(kids, axis, upto - 1), natural_on(kids[upto - 1], axis))
    } else {
        natural_max(kids, axis, upto - 1)
    }
}

/// The space that the gaps between `n` children in the flow take.
pub fn gaps(gap: i32, n: usize) -> (r: i32)
    ensures
        r as int == gaps_total(gap as int, n as int),
{
    reveal(gaps_total);
    if n > 0 {
        times(gap, n - 1)
    } else {
        0
    }
}

/// The natural width and height of an element.
pub fn measure(e: &Element) -> (r: (i32, i32))
    ensures
        r.0 as int == natural_on(*e, ContainerDirection::Horizontal),
        r.1 as int == natural_on(*e, ContainerDirection::Vertical),
    decreases e, 0int,
{
    let s = e.style();
    match e {
        Element::Empty => (0, 0),
        Element::Rect { .. } => {
            let w: i32 = resolve_natural(s.width, 0, s.min_width, s.max_width);
            let h: i32 = resolve_natural(s.height, 0, s.min_height, s.max_height);
            (sat_add3(s.padding.left, w, s.padding.right), sat_add3(s.padding.top, h, s.padding.bottom))
        },
        Element::Text { measured_w, measured_h, .. } => {
            let w: i32 = resolve_natural(s.width, *measured_w, s.min_width, s.max_width);
            (
                sat_add3(s.padding.left, w, s.padding.right),
                sat_add3(s.padding.top, *measured_h, s.padding.bottom),
            )
        },
        Element::Button { label_w, label_h, .. } => {
            let w: i32 = resolve_natural(
                s.width,
                sat_add(*label_w, BUTTON_PAD_W),
                s.min_width,
                s.max_width,
            );
            let h: i32 = resolve_natural(
                s.height,
                sat_add(*label_h, BUTTON_PAD_H),
                s.min_height,
                s.max_height,
            );
            (sat_add3(s.padding.left, w, s.padding.right), sat_add3(s.padding.top, h, s.padding.bottom))
        },
        Element::Row { children, .. } => {
            let (sum_w, max_w, sum_h, max_h, n) = measure_children(children);
            let gaps: i32 = gaps(s.gap, n);
            let content_w: i32 = sat_add3(s.padding.left, sat_add(sum_w, gaps), s.padding.right);
            let content_h: i32 = sat_add3(s.padding.top, max_h, s.padding.bottom);
            (
                resolve_natural(s.width, content_w, s.min_width, s.max_width),
                resolve_natural(s.height, content_h, s.min_height, s.max_height),
            )
        },
        Element::Column { children, .. } => {
            let (sum_w, max_w, sum_h, max_h, n) = measure_children(children);
            let gaps: i32 = gaps(s.gap, n);
            let content_w: i32 = sat_add3(s.padding.left, max_w, s.padding.right);
            let content_h: i32 = sat_add3(s.padding.top, sat_add(sum_h, gaps), s.padding.bottom);
            (
                resolve_natural(s.width, content_w, s.min_width, s.max_width),
                resolve_natural(s.height, content_h, s.min_height, s.max_height),
            )
        },
    }
}

/// Measures the children of a container: the sum and the largest of their
/// natural widths, the same of their heights, and how many are in the flow.
fn measure_children(kids: &Vec<Element>) -> (r: (i32, i32, i32, i32, usize))
    ensures
        r.0 as int == natural_sum(kids@, ContainerDirection::Horizontal, kids@.len() as int),
        r.1 as int == natural_max(kids@, ContainerDirection::Horizontal, kids@.len() as int),
        r.2 as int == natural_sum(kids@, ContainerDirection::Vertical, kids@.len() as int),
        r.3 as int == natural_max(kids@, ContainerDirection::Vertical, kids@.len() as int),
        r.4 as int == flow_count(kids@, kids@.len() as int),
    decreases kids, 1int,
{
    let mut sum_w: i32 = 0;
    let mut max_w: i32 = 0;
    let mut sum_h: i32 = 0;
    let mut max_h: i32 = 0;
    let mut n: usize = 0;
    let mut i: usize = 0;
    while i < kids.len()
        invariant
            i <= kids@.len(),
            n <= i,
            n as int == flow_count(kids@, i as int),
            sum_w as int == natural_sum(kids@, ContainerDirection::Horizontal, i as int),
            max_w as int == natural_max(kids@, ContainerDirection::Horizontal, i as int),
            sum_h as int == natural_sum(kids@, ContainerDirection::Vertical, i as int),
            max_h as int == natural_max(kids@, ContainerDirection::Vertical, i as int),
        decreases kids@.len() - i,
    {
        let kid = &kids[i];
        if kid.style().in_flow() {
            let (w, h) = measure(kid);
            sum_w = sat_add(sum_w, w);
            max_w = max_i32(max_w, w);
            sum_h = sat_add(sum_h, h);
            max_h = max_i32(max_h, h);
            n += 1;
        }
        i += 1;
    }
    (sum_w, max_w, sum_h, max_h, n)
}

} // verus!
