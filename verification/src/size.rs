//! The size model: what a node may ask for on one axis, and how a request
//! is resolved against the extent its parent offers.

use vstd::prelude::*;
use crate::units::{at_least_zero, max_of, min_of, percent_of, percent_of_spec, sat, saturate};

verus! {

/// A size request on one axis.
#[derive(Clone, Copy, PartialEq, Eq, Debug, Structural)]
pub enum Size {
    /// A fixed number of layout units.
    Fixed(i32),
    /// Everything the parent offers; among siblings in a container, an equal
    /// share of what the others leave.
    Fill,
    /// A percentage of the parent's inner available extent on that axis.
    Percent(i32),
    /// The natural size of the node, from its content or its children.
    Auto,
}

impl Default for Size {
    fn default() -> (r: Self)
        ensures
            r == Size::Auto,
    {
        Size::Auto
    }
}

/// How children are placed inside the space their container has for them.
/// On the cross axis only `Start`, `Center` and `End` move a child; on the
/// main axis all six decide how leftover space is spread.
#[derive(Clone, Copy, PartialEq, Eq, Debug, Structural)]
pub enum Align {
    Start,
    Center,
    End,
    SpaceBetween,
    SpaceAround,
    SpaceEvenly,
}

impl Default for Align {
    fn default() -> (r: Self)
        ensures
            r == Align::Start,
    {
        Align::Start
    }
}

/// `v` raised to `min` where there is one, then lowered to `max` where there
/// is one. Where the two cross, `max` wins.
pub open spec fn clamp_spec(v: int, min: Option<i32>, max: Option<i32>) -> int {
    let raised = match min {
        Some(m) => max_of(v, m as int),
        None => v,
    };
    match max {
        Some(m) => min_of(raised, m as int),
        None => raised,
    }
}

/// The extent a size request resolves to before clamping: `natural` is the
/// node's intrinsic extent, `avail` the extent its parent offers.
pub open spec fn resolve_spec(size: Size, natural: int, avail: int) -> int {
    match size {
        Size::Fixed(v) => v as int,
        Size::Fill => avail,
        Size::Percent(p) => percent_of_spec(avail, p as int),
        Size::Auto => natural,
    }
}

/// The resolved extent of a node on one axis: the request resolved, then
/// clamped.
pub open spec fn resolved_extent(
    size: Size,
    natural: int,
    avail: int,
    min: Option<i32>,
    max: Option<i32>,
) -> int {
    clamp_spec(resolve_spec(size, natural, avail), min, max)
}

/// The natural extent of a node on one axis: as `resolved_extent`, but a
/// request that depends on the parent (`Fill`, `Percent`) counts as zero.
pub open spec fn natural_extent(size: Size, natural: int, min: Option<i32>, max: Option<i32>) -> int {
    let base = match size {
        Size::Fixed(v) => v as int,
        Size::Auto => natural,
        Size::Fill => 0,
        Size::Percent(_) => 0,
    };
    clamp_spec(base, min, max)
}

/// How far a child moves from the start of its container on one axis.
pub open spec fn align_offset_spec(align: Align, container: int, child: int) -> int {
    match align {
        Align::Center => at_least_zero((container - child) / 2),
        Align::End => at_least_zero(saturate(container - child)),
        _ => 0,
    }
}

/// Clamps `v` between an optional minimum and an optional maximum.
pub fn clamp(v: i32, min: Option<i32>, max: Option<i32>) -> (r: i32)
    ensures
        r as int == clamp_spec(v as int, min, max),
{
    let raised: i32 = match min {
        Some(m) => if v >= m { v } else { m },
        None => v,
    };
    match max {
        Some(m) => if raised <= m { raised } else { m },
        None => raised,
    }
}

/// Resolves a size request: `Fixed` gives its value, `Fill` the available
/// extent, `Percent` that share of the available extent, `Auto` the natural
/// extent.
pub fn resolve(size: Size, natural: i32, avail: i32) -> (r: i32)
    ensures
        r as int == resolve_spec(size, natural as int, avail as int),
{
    match size {
        Size::Fixed(v) => v,
        Size::Fill => avail,
        Size::Percent(p) => percent_of(avail, p),
        Size::Auto => natural,
    }
}

/// Resolves a size request and clamps the result.
pub fn resolve_clamped(size: Size, natural: i32, avail: i32, min: Option<i32>, max: Option<i32>) -> (r: i32)
    ensures
        r as int == resolved_extent(size, natural as int, avail as int, min, max),
{
    clamp(resolve(size, natural, avail), min, max)
}

/// The natural extent on one axis, for the measure pass.
pub fn resolve_natural(size: Size, natural: i32, min: Option<i32>, max: Option<i32>) -> (r: i32)
    ensures
        r as int == natural_extent(size, natural as int, min, max),
{
    let base: i32 = match size {
        Size::Fixed(v) => v,
        Size::Auto => natural,
        Size::Fill => 0,
        Size::Percent(_) => 0,
    };
    clamp(base, min, max)
}

/// The offset of a child inside its container: none for `Start`, half the
/// free space for `Center`, all of it for `End`, never negative. The three
/// spacing policies do not move a single child.
pub fn align_offset(align: Align, container: i32, child: i32) -> (r: i32)
    ensures
        r as int == align_offset_spec(align, container as int, child as int),
        r >= 0,
{
    match align {
        Align::Center => {
            let free: i64 = container as i64 - child as i64;
            if free <= 0 {
                0
            } else {
                sat(free / 2)
            }
        },
        Align::End => {
            let free: i32 = sat(container as i64 - child as i64);
            if free <= 0 {
                0
            } else {
                free
            }
        },
        _ => 0,
    }
}

/// Resolving a request is a function of its inputs: two resolutions of the
/// same request against the same extents agree.
pub proof fn lemma_resolve_is_pure(
    size: Size,
    natural: int,
    avail: int,
    min: Option<i32>,
    max: Option<i32>,
    first: int,
    second: int,
)
    requires
        first == resolved_extent(size, natural, avail, min, max),
        second == resolved_extent(size, natural, avail, min, max),
    ensures
        first == second,
{
}

/// Clamping is idempotent: a clamped extent is left as it is by the same
/// clamps.
pub proof fn lemma_clamp_idempotent(v: int, min: Option<i32>, max: Option<i32>)
    ensures
        clamp_spec(clamp_spec(v, min, max), min, max) == clamp_spec(v, min, max),
{
}

/// A resolved extent takes part in a second resolution as a fixed size
/// without changing: resolving is idempotent under its clamps.
pub proof fn lemma_resolve_idempotent(
    size: Size,
    natural: int,
    avail: int,
    min: Option<i32>,
    max: Option<i32>,
    resolved: i32,
)
    requires
        resolved as int == resolved_extent(size, natural, avail, min, max),
    ensures
        resolved_extent(Size::Fixed(resolved), natural, avail, min, max) == resolved as int,
{
}

} // verus!
