//! The clip resolver: the rectangle outside of which the descendants of a
//! container are not drawn.

use vstd::prelude::*;
use crate::style::Overflow;
use crate::units::{max_i32, max_of, min_i32, min_of, sat_add, saturate};

verus! {

/// A clip rectangle, by its left, top, right and bottom edge.
#[derive(Debug, Clone, Copy, PartialEq, Eq, Structural)]
pub struct ClipRect {
    pub x0: i32,
    pub y0: i32,
    pub x1: i32,
    pub y1: i32,
}

/// The clip rectangle of the rectangle at `(x, y)` of `w` by `h`.
pub open spec fn clip_of(x: int, y: int, w: int, h: int) -> ClipRect {
    ClipRect { x0: x as i32, y0: y as i32, x1: saturate(x + w) as i32, y1: saturate(y + h) as i32 }
}

/// What two clip rectangles have in common: the larger of their left and
/// of their top edges, the smaller of their right and of their bottom
/// edges.
pub open spec fn intersect_spec(a: ClipRect, b: ClipRect) -> ClipRect {
    ClipRect {
        x0: max_of(a.x0 as int, b.x0 as int) as i32,
        y0: max_of(a.y0 as int, b.y0 as int) as i32,
        x1: min_of(a.x1 as int, b.x1 as int) as i32,
        y1: min_of(a.y1 as int, b.y1 as int) as i32,
    }
}

/// Whether the rectangle at `(x, y)` of `w` by `h` lies fully outside the
/// clip: left of it, above it, right of it or below it. Without a clip
/// nothing is outside.
pub open spec fn outside_spec(x: int, y: int, w: int, h: int, clip: Option<ClipRect>) -> bool {
    match clip {
        None => false,
        Some(c) => x + w < c.x0 || y + h < c.y0 || x > c.x1 || y > c.y1,
    }
}

/// The clip that the children of a container are drawn with. A container
/// that hides or scrolls its overflow clips to its own rectangle, and to
/// what that has in common with the clip it is drawn with; any other
/// container hands its own clip on.
pub open spec fn child_clip_spec(
    x: int,
    y: int,
    w: int,
    h: int,
    overflow: Overflow,
    parent_clip: Option<ClipRect>,
) -> Option<ClipRect> {
    if overflow == Overflow::Hidden || overflow == Overflow::Scroll {
        match parent_clip {
            Some(p) => Some(intersect_spec(clip_of(x, y, w, h), p)),
            None => Some(clip_of(x, y, w, h)),
        }
    } else {
        parent_clip
    }
}

/// What two clip rectangles have in common.
pub fn intersect(a: ClipRect, b: ClipRect) -> (r: ClipRect)
    ensures
        r == intersect_spec(a, b),
{
    ClipRect {
        x0: max_i32(a.x0, b.x0),
        y0: max_i32(a.y0, b.y0),
        x1: min_i32(a.x1, b.x1),
        y1: min_i32(a.y1, b.y1),
    }
}

/// Whether a rectangle lies fully outside the clip and is not drawn. A
/// rectangle that overlaps the clip in part is drawn.
pub fn is_outside(x: i32, y: i32, w: i32, h: i32, clip: Option<ClipRect>) -> (r: bool)
    ensures
        r == outside_spec(x as int, y as int, w as int, h as int, clip),
{
    match clip {
        None => false,
        Some(c) => (x as i64 + w as i64) < c.x0 as i64 || (y as i64 + h as i64) < c.y0 as i64 || x
            > c.x1 || y > c.y1,
    }
}

/// The clip that the children of the container at `(x, y)` of `w` by `h`
/// are drawn with.
pub fn make_child_clip(
    x: i32,
    y: i32,
    w: i32,
    h: i32,
    overflow: Overflow,
    parent_clip: Option<ClipRect>,
) -> (r: Option<ClipRect>)
    ensures
        r == child_clip_spec(x as int, y as int, w as int, h as int, overflow, parent_clip),
{
    match overflow {
        Overflow::Visible => parent_clip,
        _ => {
            let own = ClipRect { x0: x, y0: y, x1: sat_add(x, w), y1: sat_add(y, h) };
            match parent_clip {
                Some(p) => Some(intersect(own, p)),
                None => Some(own),
            }
        },
    }
}

/// Intersecting does not depend on the order of the two rectangles.
pub proof fn lemma_intersect_commutative(a: ClipRect, b: ClipRect)
    ensures
        intersect_spec(a, b) == intersect_spec(b, a),
{
}

/// Intersecting three rectangles does not depend on which two are taken
/// first.
pub proof fn lemma_intersect_associative(a: ClipRect, b: ClipRect, c: ClipRect)
    ensures
        intersect_spec(intersect_spec(a, b), c) == intersect_spec(a, intersect_spec(b, c)),
{
}

/// Intersecting a rectangle with itself changes nothing.
pub proof fn lemma_intersect_idempotent(a: ClipRect)
    ensures
        intersect_spec(a, a) == a,
{
}

/// Two nested containers that clip: the children of the inner one are
/// drawn with what the two rectangles have in common, whichever of the two
/// is the outer one.
pub proof fn lemma_nested_clip(
    ax: int,
    ay: int,
    aw: int,
    ah: int,
    a_overflow: Overflow,
    bx: int,
    by: int,
    bw: int,
    bh: int,
    b_overflow: Overflow,
)
    requires
        a_overflow != Overflow::Visible,
        b_overflow != Overflow::Visible,
    ensures
        child_clip_spec(bx, by, bw, bh, b_overflow, child_clip_spec(ax, ay, aw, ah, a_overflow, None))
            == Some(intersect_spec(clip_of(ax, ay, aw, ah), clip_of(bx, by, bw, bh))),
        child_clip_spec(bx, by, bw, bh, b_overflow, child_clip_spec(ax, ay, aw, ah, a_overflow, None))
            == child_clip_spec(
            ax,
            ay,
            aw,
            ah,
            a_overflow,
            child_clip_spec(bx, by, bw, bh, b_overflow, None),
        ),
{
}

/// Two nested containers that clip, themselves drawn with a clip: the
/// children of the inner one are drawn with what the two rectangles and
/// that clip have in common.
pub proof fn lemma_nested_clip_under(
    ax: int,
    ay: int,
    aw: int,
    ah: int,
    a_overflow: Overflow,
    bx: int,
    by: int,
    bw: int,
    bh: int,
    b_overflow: Overflow,
    outer: ClipRect,
)
    requires
        a_overflow != Overflow::Visible,
        b_overflow != Overflow::Visible,
    ensures
        child_clip_spec(
            bx,
            by,
            bw,
            bh,
            b_overflow,
            child_clip_spec(ax, ay, aw, ah, a_overflow, Some(outer)),
        ) == Some(
            intersect_spec(intersect_spec(clip_of(ax, ay, aw, ah), clip_of(bx, by, bw, bh)), outer),
        ),
{
}

/// A container that shows its overflow hands the clip on as it is.
pub proof fn lemma_visible_keeps_clip(x: int, y: int, w: int, h: int, clip: Option<ClipRect>)
    ensures
        child_clip_spec(x, y, w, h, Overflow::Visible, clip) == clip,
{
}

} // verus!
