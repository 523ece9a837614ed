//! What holds of the layout and of the dispatch for every input, stated
//! over the functions that their contracts are written with.

use vstd::prelude::*;
use crate::dispatch::{
    callbacks_of, fired, kids_count, kids_hovered, kids_intents, lemma_kids_count_grows,
    node_count, node_intents,
    pointer_over, tree_hovered, tree_intents, Intent, IntentKind,
};
use crate::element::{ActionId, Element};
use crate::layout::{
    along, arrange_spec, between_space, content_sum, cross_max, cursor_at, fill_count,
    fill_weight, first_fill_weight, fixed_sum, flow_frame, flow_node, flow_offer, height_of,
    inner_on, is_fill, lead_space, offer, plan_flow, share_of, weighted_share, weights_even,
    width_of, FillRule,
};
use crate::measure::{
    container_content, flow_count, gaps_total, max_request_on, min_request_on, natural_max,
    natural_on, natural_sum, request_on,
};
use crate::node::{KindView, NodeView};
use crate::size::{natural_extent, Size};
use crate::style::{ContainerDirection, Style};
use crate::units::{at_least_zero, inner_extent_spec, percent_of_spec, saturate};

verus! {

/// An equal split: `parts` shares of `whole`, each rounded down, come to
/// `whole` less a rest that is smaller than `parts`.
pub proof fn lemma_equal_split(whole: int, parts: int)
    requires
        whole >= 0,
        parts > 0,
    ensures
        parts * (whole / parts) + whole % parts == whole,
        0 <= whole % parts < parts,
        0 <= whole / parts <= whole,
{
    assert(parts * (whole / parts) + whole % parts == whole && 0 <= whole % parts < parts && 0
        <= whole / parts <= whole) by (nonlinear_arith)
        requires
            whole >= 0,
            parts > 0,
    ;
}

/// The `Fill` children of a container share equally what the others leave.
///
/// Let a row or column have the inner extent `W` along its direction, a gap
/// `g` that is not negative, and `n` children in the flow, `k` of them
/// `Fill` children with the same grow weight, the others taking `F`
/// together. Then every `Fill` child is offered `max(0, W - g * (n - 1) - F)
/// / k`, rounded down. Where `W - g * (n - 1) - F` is not negative, the gaps,
/// the other children and the `k` shares take `W` less a rest that is
/// smaller than `k`: exactly `W` where `k` divides what is left.
pub proof fn lemma_fill_distribution(
    style: Style,
    kids: Seq<Element>,
    dir: ContainerDirection,
    aw: int,
    ah: int,
)
    requires
        style.gap >= 0,
        flow_count(kids, kids.len() as int) >= 1,
        style.gap * (flow_count(kids, kids.len() as int) - 1) <= i32::MAX,
        fill_count(kids, dir, kids.len() as int) > 0,
        weights_even(kids, dir, kids.len() as int),
        fixed_sum(
            kids,
            dir,
            plan_flow(style, kids, dir, aw, ah).main_avail,
            plan_flow(style, kids, dir, aw, ah).cross_avail,
            kids.len() as int,
        ) >= 0,
    ensures
        ({
            let p = plan_flow(style, kids, dir, aw, ah);
            let w = inner_on(style, dir, along(dir, aw, ah));
            let n = flow_count(kids, kids.len() as int);
            let k = fill_count(kids, dir, kids.len() as int);
            let f = fixed_sum(kids, dir, p.main_avail, p.cross_avail, kids.len() as int);
            let left = w - style.gap * (n - 1) - f;
            &&& p.gaps == style.gap * (n - 1)
            &&& p.rule.remaining == at_least_zero(left)
            &&& p.rule.share == at_least_zero(left) / k
            &&& forall|i: int|
                0 <= i < kids.len() && is_fill(#[trigger] kids[i], dir) ==> offer(
                    kids[i],
                    dir,
                    p.main_avail,
                    p.rule,
                ) == at_least_zero(left) / k
            &&& left >= 0 ==> style.gap * (n - 1) + f + k * p.rule.share + left % k == w
            &&& left >= 0 ==> 0 <= left % k < k
        }),
{
    reveal(flow_offer);
    reveal(gaps_total);
    reveal(share_of);
    let p = plan_flow(style, kids, dir, aw, ah);
    let w = inner_on(style, dir, along(dir, aw, ah));
    let n = flow_count(kids, kids.len() as int);
    let k = fill_count(kids, dir, kids.len() as int);
    let f = fixed_sum(kids, dir, p.main_avail, p.cross_avail, kids.len() as int);
    let gaps = style.gap * (n - 1);
    assert(gaps >= 0) by (nonlinear_arith)
        requires
            style.gap >= 0,
            n >= 1,
            gaps == style.gap * (n - 1),
    ;
    assert(p.gaps == gaps);
    assert(0 <= w <= i32::MAX);
    assert(p.main_avail == at_least_zero(w - gaps));
    let left = w - gaps - f;
    assert(at_least_zero(saturate(p.main_avail - f)) == at_least_zero(left));
    assert(0 <= at_least_zero(left) / k <= at_least_zero(left)) by (nonlinear_arith)
        requires
            k > 0,
            at_least_zero(left) >= 0,
    ;
    assert(p.rule.share == at_least_zero(left) / k);
    if left >= 0 {
        lemma_equal_split(left, k);
    }
}

/// The grow weights of the `Fill` children sum to nothing less than any one
/// of them, and to no more than fits the count of the children.
proof fn lemma_fill_weight_bounds(kids: Seq<Element>, dir: ContainerDirection, i: int, upto: int)
    requires
        0 <= i < upto <= kids.len(),
    ensures
        0 <= fill_weight(kids, dir, i) <= fill_weight(kids, dir, upto) <= upto * 0xffff_ffff,
        kids[i].spec_style().spec_in_flow() && is_fill(kids[i], dir) ==> kids[i].spec_style().grow
            <= fill_weight(kids, dir, upto),
    decreases upto,
{
    assert((upto - 1) * 0xffff_ffff + 0xffff_ffff == upto * 0xffff_ffff) by (nonlinear_arith);
    if i < upto - 1 {
        lemma_fill_weight_bounds(kids, dir, i, upto - 1);
    } else {
        lemma_fill_weight_positive(kids, dir, i);
    }
}

/// The grow weights of the `Fill` children among the first `upto` sum to
/// nothing negative, and to no more than fits the count of the children.
proof fn lemma_fill_weight_positive(kids: Seq<Element>, dir: ContainerDirection, upto: int)
    requires
        0 <= upto <= kids.len(),
    ensures
        0 <= fill_weight(kids, dir, upto) <= upto * 0xffff_ffff,
    decreases upto,
{
    if upto > 0 {
        lemma_fill_weight_positive(kids, dir, upto - 1);
        assert((upto - 1) * 0xffff_ffff + 0xffff_ffff == upto * 0xffff_ffff) by (nonlinear_arith);
    }
}

/// Grow weights that sum to nothing are all zero, and so all the same.
proof fn lemma_no_weight_is_even(kids: Seq<Element>, dir: ContainerDirection, upto: int)
    requires
        0 <= upto <= kids.len(),
        fill_weight(kids, dir, upto) == 0,
    ensures
        weights_even(kids, dir, upto),
        first_fill_weight(kids, dir, upto) is None || first_fill_weight(kids, dir, upto) == Some(
            0u32,
        ),
    decreases upto,
{
    if upto > 0 {
        lemma_fill_weight_positive(kids, dir, upto - 1);
        lemma_no_weight_is_even(kids, dir, upto - 1);
    }
}

/// The `Fill` children of a container whose grow weights differ share what
/// the others leave in proportion to their weights.
///
/// Let `R` be what the children that are no `Fill` children leave of what
/// the container has along its direction, and `T` the sum of the grow
/// weights of the `Fill` children. Then `T` is positive, and a `Fill` child
/// with the grow weight `g` is offered `R * g / T`, rounded down, which is
/// no more than `R`. A `Fill` child with no weight is offered nothing.
pub proof fn lemma_weighted_distribution(
    style: Style,
    kids: Seq<Element>,
    dir: ContainerDirection,
    aw: int,
    ah: int,
    i: int,
)
    requires
        kids.len() <= usize::MAX,
        0 <= i < kids.len(),
        kids[i].spec_style().spec_in_flow(),
        is_fill(kids[i], dir),
        !weights_even(kids, dir, kids.len() as int),
    ensures
        ({
            let p = plan_flow(style, kids, dir, aw, ah);
            let r = at_least_zero(
                saturate(
                    p.main_avail - fixed_sum(
                        kids,
                        dir,
                        p.main_avail,
                        p.cross_avail,
                        kids.len() as int,
                    ),
                ),
            );
            let t = fill_weight(kids, dir, kids.len() as int);
            let g = kids[i].spec_style().grow as int;
            &&& p.rule.weighted
            &&& p.rule.remaining == r
            &&& p.rule.total_weight == t
            &&& t > 0
            &&& offer(kids[i], dir, p.main_avail, p.rule) == (r * g) / t
            &&& 0 <= (r * g) / t <= r
        }),
{
    reveal(weighted_share);
    let len = kids.len() as int;
    let p = plan_flow(style, kids, dir, aw, ah);
    let t = fill_weight(kids, dir, len);
    let g = kids[i].spec_style().grow as int;
    let r = p.rule.remaining as int;
    lemma_fill_weight_bounds(kids, dir, i, len);
    assert(len * 0xffff_ffff <= 0xffff_ffff_ffff_ffff * 0xffff_ffff) by (nonlinear_arith)
        requires
            0 <= len <= 0xffff_ffff_ffff_ffff,
    ;
    if t == 0 {
        lemma_no_weight_is_even(kids, dir, len);
    }
    assert(0 <= (r * g) / t <= r) by (nonlinear_arith)
        requires
            0 <= g <= t,
            t > 0,
            r >= 0,
    ;
}

/// A child outside the flow is stepped over: the child after it starts
/// where it would have started itself, and it adds nothing to what its
/// container counts and sums over its children.
pub proof fn lemma_absolute_child_is_skipped(
    kids: Seq<Element>,
    dir: ContainerDirection,
    main_avail: int,
    rule: FillRule,
    cross_avail: int,
    start: int,
    gap: int,
    between: int,
    i: int,
)
    requires
        0 <= i < kids.len(),
        !kids[i].spec_style().spec_in_flow(),
    ensures
        cursor_at(kids, dir, main_avail, rule, cross_avail, start, gap, between, i + 1) == cursor_at(
            kids,
            dir,
            main_avail,
            rule,
            cross_avail,
            start,
            gap,
            between,
            i,
        ),
        flow_count(kids, i + 1) == flow_count(kids, i),
        fill_count(kids, dir, i + 1) == fill_count(kids, dir, i),
        fill_weight(kids, dir, i + 1) == fill_weight(kids, dir, i),
        weights_even(kids, dir, i + 1) == weights_even(kids, dir, i),
        fixed_sum(kids, dir, main_avail, cross_avail, i + 1) == fixed_sum(
            kids,
            dir,
            main_avail,
            cross_avail,
            i,
        ),
        content_sum(kids, dir, main_avail, rule, cross_avail, i + 1) == content_sum(
            kids,
            dir,
            main_avail,
            rule,
            cross_avail,
            i,
        ),
        cross_max(kids, dir, main_avail, rule, cross_avail, i + 1) == cross_max(
            kids,
            dir,
            main_avail,
            rule,
            cross_avail,
            i,
        ),
        natural_sum(kids, dir, i + 1) == natural_sum(kids, dir, i),
        natural_max(kids, dir, i + 1) == natural_max(kids, dir, i),
{
}

/// A text is as high as it was shaped, in the measure and in the layout,
/// whatever its style asks for its height and whatever it is offered. Its
/// natural height is its shaped height and its padding above and below.
/// Where its width request is `Auto` and unclamped, its natural width is
/// its shaped width and its padding left and right, and its laid-out width
/// is its shaped width.
pub proof fn lemma_text_keeps_its_shaped_size(e: Element, aw: int, ah: int)
    requires
        e is Text,
    ensures
        arrange_spec(e, aw, ah).h == e->measured_h,
        natural_on(e, ContainerDirection::Vertical) == saturate(
            e.spec_style().padding.top + e->measured_h + e.spec_style().padding.bottom,
        ),
        e.spec_style().width is Auto && e.spec_style().min_width is None && e.spec_style().max_width
            is None ==> {
            &&& arrange_spec(e, aw, ah).w == e->measured_w
            &&& natural_on(e, ContainerDirection::Horizontal) == saturate(
                e.spec_style().padding.left + e->measured_w + e.spec_style().padding.right,
            )
        },
{
    reveal_with_fuel(arrange_spec, 1);
}

/// A leaf that asks for a percentage takes that percentage of what it is
/// offered less its padding, whatever the container that makes the offer
/// asked for itself.
pub proof fn lemma_percent_of_offer(e: Element, axis: ContainerDirection, pct: i32, aw: int, ah: int)
    requires
        e is Rect || e is Text || e is Button,
        request_on(e, axis) == Size::Percent(pct),
        min_request_on(e, axis) is None,
        max_request_on(e, axis) is None,
    ensures
        arrange_spec(e, aw, ah).size_on(axis) == percent_of_spec(
            inner_extent_spec(
                along(axis, aw, ah),
                e.spec_style().padding.spec_before(axis) as int,
                e.spec_style().padding.spec_after(axis) as int,
            ),
            pct as int,
        ),
{
    reveal_with_fuel(arrange_spec, 1);
}

/// A child that asks for a percentage along the direction of its container
/// takes that percentage of the container's inner extent less the gaps: of
/// the same extent that the container offers every child that is no `Fill`
/// child. Two containers with the same inner extent, the same gap and as
/// many children in the flow give it the same extent, whatever they asked
/// for themselves.
pub proof fn lemma_percent_of_inner_extent(
    style: Style,
    kids: Seq<Element>,
    dir: ContainerDirection,
    aw: int,
    ah: int,
    i: int,
    pct: i32,
)
    requires
        0 <= i < kids.len(),
        kids[i] is Rect || kids[i] is Text || kids[i] is Button,
        request_on(kids[i], dir) == Size::Percent(pct),
        min_request_on(kids[i], dir) is None,
        max_request_on(kids[i], dir) is None,
        kids[i].spec_style().padding.spec_before(dir) == 0,
        kids[i].spec_style().padding.spec_after(dir) == 0,
    ensures
        ({
            let p = plan_flow(style, kids, dir, aw, ah);
            let n = flow_count(kids, kids.len() as int);
            &&& p.main_avail == at_least_zero(
                saturate(inner_on(style, dir, along(dir, aw, ah)) - gaps_total(style.gap as int, n)),
            )
            &&& flow_node(
                kids[i],
                dir,
                offer(kids[i], dir, p.main_avail, p.rule),
                p.cross_avail,
            ).size_on(dir) == percent_of_spec(p.main_avail, pct as int)
        }),
{
    reveal(flow_offer);
    let p = plan_flow(style, kids, dir, aw, ah);
    lemma_percent_of_offer(
        kids[i],
        dir,
        pct,
        width_of(dir, p.main_avail, p.cross_avail),
        height_of(dir, p.main_avail, p.cross_avail),
    );
}

/// A `Fill` child without clamps whose padding fits into what it is offered
/// takes exactly what it is offered along the direction of its container.
pub proof fn lemma_fill_leaf_takes_offer(e: Element, dir: ContainerDirection, main: int, cross: int)
    requires
        e is Rect || e is Text || e is Button,
        is_fill(e, dir),
        min_request_on(e, dir) is None,
        max_request_on(e, dir) is None,
        e.spec_style().padding.spec_before(dir) >= 0,
        e.spec_style().padding.spec_after(dir) >= 0,
        e.spec_style().padding.spec_before(dir) + e.spec_style().padding.spec_after(dir) <= main
            <= i32::MAX,
    ensures
        flow_node(e, dir, main, cross).outer_on(dir) == main,
{
    reveal_with_fuel(arrange_spec, 1);
}

/// A row or column that asks for `Fill` without clamps takes exactly what
/// it is offered along the direction of its container.
pub proof fn lemma_fill_container_takes_offer(e: Element, dir: ContainerDirection, main: int, cross: int)
    requires
        e is Row || e is Column,
        is_fill(e, dir),
        e.spec_style().spec_min_on(dir) is None,
        e.spec_style().spec_max_on(dir) is None,
    ensures
        flow_node(e, dir, main, cross).outer_on(dir) == main,
{
    reveal_with_fuel(arrange_spec, 1);
    reveal(flow_frame);
}

/// What the children that are no `Fill` children take is not negative
/// where none of them takes less than nothing.
proof fn lemma_fixed_sum_positive(
    kids: Seq<Element>,
    dir: ContainerDirection,
    main_avail: int,
    cross_avail: int,
    upto: int,
)
    requires
        0 <= upto <= kids.len(),
        forall|i: int|
            0 <= i < kids.len() && (#[trigger] kids[i]).spec_style().spec_in_flow() && !is_fill(
                kids[i],
                dir,
            ) ==> flow_node(kids[i], dir, main_avail, cross_avail).outer_on(dir) >= 0,
    ensures
        0 <= fixed_sum(kids, dir, main_avail, cross_avail, upto) <= i32::MAX,
        0 <= fill_count(kids, dir, upto),
    decreases upto,
{
    if upto > 0 {
        lemma_fixed_sum_positive(kids, dir, main_avail, cross_avail, upto - 1);
        let kid = kids[upto - 1];
        if kid.spec_style().spec_in_flow() && !is_fill(kid, dir) {
            assert(flow_node(kid, dir, main_avail, cross_avail).outer_on(dir) >= 0);
        }
    }
}

/// What the children that are no `Fill` children take does not shrink as
/// more children are counted, where none of them takes less than nothing.
proof fn lemma_fixed_sum_grows(
    kids: Seq<Element>,
    dir: ContainerDirection,
    main_avail: int,
    cross_avail: int,
    few: int,
    many: int,
)
    requires
        0 <= few <= many <= kids.len(),
        forall|i: int|
            0 <= i < kids.len() && (#[trigger] kids[i]).spec_style().spec_in_flow() && !is_fill(
                kids[i],
                dir,
            ) ==> flow_node(kids[i], dir, main_avail, cross_avail).outer_on(dir) >= 0,
    ensures
        0 <= fixed_sum(kids, dir, main_avail, cross_avail, few) <= fixed_sum(
            kids,
            dir,
            main_avail,
            cross_avail,
            many,
        ),
        0 <= fill_count(kids, dir, few) <= fill_count(kids, dir, many),
    decreases many - few,
{
    lemma_fixed_sum_positive(kids, dir, main_avail, cross_avail, few);
    if few < many {
        lemma_fixed_sum_grows(kids, dir, main_avail, cross_avail, few, many - 1);
        lemma_fixed_sum_positive(kids, dir, main_avail, cross_avail, many - 1);
        let kid = kids[many - 1];
        if kid.spec_style().spec_in_flow() && !is_fill(kid, dir) {
            assert(flow_node(kid, dir, main_avail, cross_avail).outer_on(dir) >= 0);
        }
    }
}

/// Where every `Fill` child takes exactly its share and nothing overflows,
/// the children take what the others take and one share for every `Fill`
/// child.
#[verifier::rlimit(30)]
proof fn lemma_content_is_fixed_and_shares(
    kids: Seq<Element>,
    dir: ContainerDirection,
    main_avail: int,
    rule: FillRule,
    cross_avail: int,
    upto: int,
)
    requires
        0 <= upto <= kids.len(),
        !rule.weighted,
        rule.share >= 0,
        forall|i: int|
            0 <= i < kids.len() && (#[trigger] kids[i]).spec_style().spec_in_flow() && !is_fill(
                kids[i],
                dir,
            ) ==> flow_node(kids[i], dir, main_avail, cross_avail).outer_on(dir) >= 0,
        forall|i: int|
            0 <= i < kids.len() && (#[trigger] kids[i]).spec_style().spec_in_flow() && is_fill(
                kids[i],
                dir,
            ) ==> flow_node(kids[i], dir, rule.share as int, cross_avail).outer_on(dir) == rule.share,
        fixed_sum(kids, dir, main_avail, cross_avail, kids.len() as int) + fill_count(
            kids,
            dir,
            kids.len() as int,
        ) * rule.share < i32::MAX,
    ensures
        content_sum(kids, dir, main_avail, rule, cross_avail, upto) == fixed_sum(
            kids,
            dir,
            main_avail,
            cross_avail,
            upto,
        ) + fill_count(kids, dir, upto) * rule.share,
    decreases upto,
{
    let share = rule.share as int;
    let len = kids.len() as int;
    lemma_fixed_sum_grows(kids, dir, main_avail, cross_avail, upto, len);
    let f_all = fixed_sum(kids, dir, main_avail, cross_avail, len);
    let k_all = fill_count(kids, dir, len);
    let f = fixed_sum(kids, dir, main_avail, cross_avail, upto);
    let k = fill_count(kids, dir, upto);
    assert(0 <= k * share <= k_all * share) by (nonlinear_arith)
        requires
            0 <= k <= k_all,
            share >= 0,
    ;
    if upto > 0 {
        lemma_content_is_fixed_and_shares(kids, dir, main_avail, rule, cross_avail, upto - 1);
        lemma_fixed_sum_grows(kids, dir, main_avail, cross_avail, upto - 1, upto);
        let kid = kids[upto - 1];
        let f1 = fixed_sum(kids, dir, main_avail, cross_avail, upto - 1);
        let k1 = fill_count(kids, dir, upto - 1);
        assert(0 <= k1 * share <= k * share) by (nonlinear_arith)
            requires
                0 <= k1 <= k,
                share >= 0,
        ;
        let c1 = content_sum(kids, dir, main_avail, rule, cross_avail, upto - 1);
        let c = content_sum(kids, dir, main_avail, rule, cross_avail, upto);
        assert(c1 == f1 + k1 * share);
        assert(f + k * share <= f_all + k_all * share);
        if kid.spec_style().spec_in_flow() {
            if is_fill(kid, dir) {
                assert(k == k1 + 1);
                assert(f == f1);
                assert(k * share == k1 * share + share) by (nonlinear_arith)
                    requires
                        k == k1 + 1,
                ;
                assert(offer(kid, dir, main_avail, rule) == share);
                let t = flow_node(kid, dir, share, cross_avail).outer_on(dir);
                assert(t == share);
                assert(c == saturate(c1 + t));
                assert(c1 + t == f + k * share);
                assert(c == f + k * share);
            } else {
                assert(k == k1);
                assert(offer(kid, dir, main_avail, rule) == main_avail);
                let t = flow_node(kid, dir, main_avail, cross_avail).outer_on(dir);
                assert(t >= 0);
                assert(f == saturate(f1 + t));
                assert(f < i32::MAX);
                assert(f == f1 + t);
                assert(c == saturate(c1 + t));
                assert(c1 + t == f + k * share);
                assert(c == f + k * share);
            }
        } else {
            assert(k == k1);
            assert(f == f1);
            assert(c == c1);
        }
    }
}

/// The children of a container fill its inner extent.
///
/// Let a row or column be as in `lemma_fill_distribution`, with an inner
/// extent `W` below `i32::MAX` of which the gaps and the children that are
/// no `Fill` children leave something, let none of these children take
/// less than nothing, and let every `Fill` child take exactly the share it
/// is offered. Then the children and the gaps take `W` less the rest of the
/// division of what is left by the number of `Fill` children: exactly `W`
/// where that number divides what is left, and never more than `W`.
#[verifier::rlimit(30)]
pub proof fn lemma_flow_fills_inner_extent(
    style: Style,
    kids: Seq<Element>,
    dir: ContainerDirection,
    aw: int,
    ah: int,
)
    requires
        style.gap >= 0,
        flow_count(kids, kids.len() as int) >= 1,
        style.gap * (flow_count(kids, kids.len() as int) - 1) <= i32::MAX,
        fill_count(kids, dir, kids.len() as int) > 0,
        weights_even(kids, dir, kids.len() as int),
        inner_on(style, dir, along(dir, aw, ah)) < i32::MAX,
        forall|i: int|
            0 <= i < kids.len() && (#[trigger] kids[i]).spec_style().spec_in_flow() && !is_fill(
                kids[i],
                dir,
            ) ==> flow_node(
                kids[i],
                dir,
                plan_flow(style, kids, dir, aw, ah).main_avail,
                plan_flow(style, kids, dir, aw, ah).cross_avail,
            ).outer_on(dir) >= 0,
        forall|i: int|
            0 <= i < kids.len() && (#[trigger] kids[i]).spec_style().spec_in_flow() && is_fill(
                kids[i],
                dir,
            ) ==> flow_node(
                kids[i],
                dir,
                plan_flow(style, kids, dir, aw, ah).rule.share as int,
                plan_flow(style, kids, dir, aw, ah).cross_avail,
            ).outer_on(dir) == plan_flow(style, kids, dir, aw, ah).rule.share,
        inner_on(style, dir, along(dir, aw, ah)) - style.gap * (flow_count(
            kids,
            kids.len() as int,
        ) - 1) - fixed_sum(
            kids,
            dir,
            plan_flow(style, kids, dir, aw, ah).main_avail,
            plan_flow(style, kids, dir, aw, ah).cross_avail,
            kids.len() as int,
        ) >= 0,
    ensures
        ({
            let p = plan_flow(style, kids, dir, aw, ah);
            let w = inner_on(style, dir, along(dir, aw, ah));
            let k = fill_count(kids, dir, kids.len() as int);
            let taken = content_sum(
                kids,
                dir,
                p.main_avail,
                p.rule,
                p.cross_avail,
                kids.len() as int,
            ) + p.gaps;
            let left = w - style.gap * (flow_count(kids, kids.len() as int) - 1) - fixed_sum(
                kids,
                dir,
                p.main_avail,
                p.cross_avail,
                kids.len() as int,
            );
            &&& taken + left % k == w
            &&& left % k == 0 ==> taken == w
            &&& w - k < taken <= w
        }),
{
    let p = plan_flow(style, kids, dir, aw, ah);
    let len = kids.len() as int;
    let w = inner_on(style, dir, along(dir, aw, ah));
    let n = flow_count(kids, len);
    let k = fill_count(kids, dir, len);
    lemma_fixed_sum_grows(kids, dir, p.main_avail, p.cross_avail, 0, len);
    let f = fixed_sum(kids, dir, p.main_avail, p.cross_avail, len);
    lemma_fill_distribution(style, kids, dir, aw, ah);
    let left = w - style.gap * (n - 1) - f;
    lemma_equal_split(left, k);
    assert(p.rule.share == left / k);
    assert(f + k * p.rule.share < i32::MAX);
    lemma_content_is_fixed_and_shares(kids, dir, p.main_avail, p.rule, p.cross_avail, len);
}

/// What the children in the flow take is not negative and does not shrink
/// as more children are counted, where none of them takes less than
/// nothing.
proof fn lemma_content_sum_grows(
    kids: Seq<Element>,
    dir: ContainerDirection,
    main_avail: int,
    rule: FillRule,
    cross_avail: int,
    few: int,
    many: int,
)
    requires
        0 <= few <= many <= kids.len(),
        forall|i: int|
            0 <= i < kids.len() && (#[trigger] kids[i]).spec_style().spec_in_flow() ==> flow_node(
                kids[i],
                dir,
                offer(kids[i], dir, main_avail, rule),
                cross_avail,
            ).outer_on(dir) >= 0,
    ensures
        0 <= content_sum(kids, dir, main_avail, rule, cross_avail, few) <= content_sum(
            kids,
            dir,
            main_avail,
            rule,
            cross_avail,
            many,
        ) <= i32::MAX,
        0 <= flow_count(kids, few) <= flow_count(kids, many),
    decreases many,
{
    if many > 0 {
        let kid = kids[many - 1];
        if kid.spec_style().spec_in_flow() {
            assert(flow_node(kid, dir, offer(kid, dir, main_avail, rule), cross_avail).outer_on(dir)
                >= 0);
        }
        if few < many {
            lemma_content_sum_grows(kids, dir, main_avail, rule, cross_avail, few, many - 1);
        } else {
            lemma_content_sum_grows(kids, dir, main_avail, rule, cross_avail, few - 1, many - 1);
        }
    }
}

/// The cursor moves on by what the children take.
///
/// Let no child in the flow take less than nothing, let the gap and what is
/// added to it be not negative together, and let the cursor start at
/// nothing less than zero and stay below `i32::MAX` to the end. Then the
/// child at position `upto` starts where the cursor started, moved on by
/// what the children in the flow before it take, and by the gap and what
/// is added to it once for each of them.
pub proof fn lemma_cursor_follows_content(
    kids: Seq<Element>,
    dir: ContainerDirection,
    main_avail: int,
    rule: FillRule,
    cross_avail: int,
    start: int,
    gap: int,
    between: int,
    upto: int,
)
    requires
        0 <= upto <= kids.len(),
        0 <= start,
        0 <= gap + between,
        forall|i: int|
            0 <= i < kids.len() && (#[trigger] kids[i]).spec_style().spec_in_flow() ==> flow_node(
                kids[i],
                dir,
                offer(kids[i], dir, main_avail, rule),
                cross_avail,
            ).outer_on(dir) >= 0,
        start + content_sum(kids, dir, main_avail, rule, cross_avail, kids.len() as int)
            + flow_count(kids, kids.len() as int) * (gap + between) < i32::MAX,
    ensures
        cursor_at(kids, dir, main_avail, rule, cross_avail, start, gap, between, upto) == start
            + content_sum(kids, dir, main_avail, rule, cross_avail, upto) + flow_count(kids, upto) * (
        gap + between),
    decreases upto,
{
    let len = kids.len() as int;
    let step = gap + between;
    lemma_content_sum_grows(kids, dir, main_avail, rule, cross_avail, upto, len);
    let n = flow_count(kids, upto);
    let n_all = flow_count(kids, len);
    assert(0 <= n * step <= n_all * step) by (nonlinear_arith)
        requires
            0 <= n <= n_all,
            0 <= step,
    ;
    if upto > 0 {
        lemma_cursor_follows_content(
            kids,
            dir,
            main_avail,
            rule,
            cross_avail,
            start,
            gap,
            between,
            upto - 1,
        );
        lemma_content_sum_grows(kids, dir, main_avail, rule, cross_avail, upto - 1, upto);
        let kid = kids[upto - 1];
        let n1 = flow_count(kids, upto - 1);
        assert(0 <= n1 * step) by (nonlinear_arith)
            requires
                0 <= n1,
                0 <= step,
        ;
        if kid.spec_style().spec_in_flow() {
            let t = flow_node(kid, dir, offer(kid, dir, main_avail, rule), cross_avail).outer_on(dir);
            assert(t >= 0);
            assert(n == n1 + 1);
            assert(n * step == n1 * step + step) by (nonlinear_arith)
                requires
                    n == n1 + 1,
            ;
            let c1 = content_sum(kids, dir, main_avail, rule, cross_avail, upto - 1);
            let c = content_sum(kids, dir, main_avail, rule, cross_avail, upto);
            assert(c == saturate(c1 + t));
            assert(c < i32::MAX);
            assert(c == c1 + t);
        }
    }
}

/// A container that places its children from the start of its direction
/// puts the first child right behind its padding and adds nothing to the
/// gaps, where that padding is not negative.
proof fn lemma_start_alignment(
    style: Style,
    dir: ContainerDirection,
    aw: int,
    ah: int,
    n_flow: int,
    gaps: int,
    content_main: int,
    tallest: int,
)
    requires
        style.spec_align_on(dir) is Start,
        style.padding.spec_before(dir) >= 0,
    ensures
        flow_frame(style, dir, aw, ah, n_flow, gaps, content_main, tallest).start
            == style.padding.spec_before(dir),
        flow_frame(style, dir, aw, ah, n_flow, gaps, content_main, tallest).between == 0,
{
    reveal(flow_frame);
    reveal(lead_space);
    reveal(between_space);
}

/// The children of a container end at its inner edge.
///
/// Let a row or column be as in `lemma_flow_fills_inner_extent`, place its
/// children from the start of its direction, and have padding in front that
/// is not negative. Then the first child starts right behind that padding,
/// and the last child ends there plus the inner extent `W`, less the rest
/// of the division of what is left by the number of `Fill` children: at
/// the inner edge exactly where that number divides what is left. Here the
/// end of the last child is where the cursor stands after all children,
/// less the gap that follows the last one.
#[verifier::rlimit(30)]
pub proof fn lemma_children_end_at_inner_edge(
    style: Style,
    kids: Seq<Element>,
    dir: ContainerDirection,
    aw: int,
    ah: int,
)
    requires
        style.gap >= 0,
        style.spec_align_on(dir) is Start,
        style.padding.spec_before(dir) >= 0,
        style.padding.spec_before(dir) + inner_on(style, dir, along(dir, aw, ah)) + style.gap
            < i32::MAX,
        flow_count(kids, kids.len() as int) >= 1,
        style.gap * (flow_count(kids, kids.len() as int) - 1) <= i32::MAX,
        fill_count(kids, dir, kids.len() as int) > 0,
        weights_even(kids, dir, kids.len() as int),
        forall|i: int|
            0 <= i < kids.len() && (#[trigger] kids[i]).spec_style().spec_in_flow() && !is_fill(
                kids[i],
                dir,
            ) ==> flow_node(
                kids[i],
                dir,
                plan_flow(style, kids, dir, aw, ah).main_avail,
                plan_flow(style, kids, dir, aw, ah).cross_avail,
            ).outer_on(dir) >= 0,
        forall|i: int|
            0 <= i < kids.len() && (#[trigger] kids[i]).spec_style().spec_in_flow() && is_fill(
                kids[i],
                dir,
            ) ==> flow_node(
                kids[i],
                dir,
                plan_flow(style, kids, dir, aw, ah).rule.share as int,
                plan_flow(style, kids, dir, aw, ah).cross_avail,
            ).outer_on(dir) == plan_flow(style, kids, dir, aw, ah).rule.share,
        inner_on(style, dir, along(dir, aw, ah)) - style.gap * (flow_count(
            kids,
            kids.len() as int,
        ) - 1) - fixed_sum(
            kids,
            dir,
            plan_flow(style, kids, dir, aw, ah).main_avail,
            plan_flow(style, kids, dir, aw, ah).cross_avail,
            kids.len() as int,
        ) >= 0,
    ensures
        ({
            let p = plan_flow(style, kids, dir, aw, ah);
            let w = inner_on(style, dir, along(dir, aw, ah));
            let k = fill_count(kids, dir, kids.len() as int);
            let left = w - style.gap * (flow_count(kids, kids.len() as int) - 1) - fixed_sum(
                kids,
                dir,
                p.main_avail,
                p.cross_avail,
                kids.len() as int,
            );
            let end = cursor_at(
                kids,
                dir,
                p.main_avail,
                p.rule,
                p.cross_avail,
                p.start,
                style.gap as int,
                p.between,
                kids.len() as int,
            ) - style.gap;
            &&& p.start == style.padding.spec_before(dir)
            &&& p.between == 0
            &&& cursor_at(
                kids,
                dir,
                p.main_avail,
                p.rule,
                p.cross_avail,
                p.start,
                style.gap as int,
                p.between,
                0,
            ) == p.start
            &&& end + left % k == p.start + w
            &&& left % k == 0 ==> end == p.start + w
        }),
{
    let p = plan_flow(style, kids, dir, aw, ah);
    let len = kids.len() as int;
    let w = inner_on(style, dir, along(dir, aw, ah));
    let n = flow_count(kids, len);
    let k = fill_count(kids, dir, len);
    let gap = style.gap as int;
    lemma_fixed_sum_grows(kids, dir, p.main_avail, p.cross_avail, 0, len);
    lemma_flow_fills_inner_extent(style, kids, dir, aw, ah);
    lemma_fill_distribution(style, kids, dir, aw, ah);
    let content = content_sum(kids, dir, p.main_avail, p.rule, p.cross_avail, len);
    assert(p.gaps == gap * (n - 1));
    assert(content + p.gaps <= w);
    assert(n * gap == gap * (n - 1) + gap) by (nonlinear_arith);
    lemma_start_alignment(
        style,
        dir,
        aw,
        ah,
        n,
        p.gaps,
        content,
        cross_max(kids, dir, p.main_avail, p.rule, p.cross_avail, len),
    );
    assert(p.start == style.padding.spec_before(dir));
    assert(p.between == 0);
    assert(n * (gap + 0) == n * gap) by (nonlinear_arith);
    assert forall|i: int|
        0 <= i < kids.len() && (#[trigger] kids[i]).spec_style().spec_in_flow() implies flow_node(
        kids[i],
        dir,
        offer(kids[i], dir, p.main_avail, p.rule),
        p.cross_avail,
    ).outer_on(dir) >= 0 by {
        if is_fill(kids[i], dir) {
            assert(offer(kids[i], dir, p.main_avail, p.rule) == p.rule.share);
        }
    }
    lemma_cursor_follows_content(
        kids,
        dir,
        p.main_avail,
        p.rule,
        p.cross_avail,
        p.start,
        gap,
        0,
        len,
    );
}

/// An element is rigid where neither it nor any of its descendants asks
/// for something that depends on its parent: every size request is `Fixed`
/// or `Auto`.
pub open spec fn rigid(e: Element) -> bool
    decreases e, 0int,
{
    &&& !(e.spec_style().width is Fill) && !(e.spec_style().width is Percent)
    &&& !(e.spec_style().height is Fill) && !(e.spec_style().height is Percent)
    &&& match e {
        Element::Row { children, .. } => all_rigid(children@, children@.len() as int),
        Element::Column { children, .. } => all_rigid(children@, children@.len() as int),
        _ => true,
    }
}

/// Whether the first `upto` children are rigid.
pub open spec fn all_rigid(kids: Seq<Element>, upto: int) -> bool
    decreases kids, upto,
{
    if upto <= 0 || upto > kids.len() {
        true
    } else {
        all_rigid(kids, upto - 1) && rigid(kids[upto - 1])
    }
}

/// Every one of the first children of a rigid list is rigid.
proof fn lemma_all_rigid_each(kids: Seq<Element>, upto: int, i: int)
    requires
        0 <= i < upto <= kids.len(),
        all_rigid(kids, upto),
    ensures
        rigid(kids[i]),
    decreases upto,
{
    if i < upto - 1 {
        lemma_all_rigid_each(kids, upto - 1, i);
    }
}

/// The layout of a rigid element agrees with its measure: whatever it is
/// offered, it takes its natural extent on both axes.
pub proof fn lemma_layout_matches_measure(e: Element, aw: int, ah: int)
    requires
        rigid(e),
    ensures
        arrange_spec(e, aw, ah).outer_on(ContainerDirection::Horizontal) == natural_on(
            e,
            ContainerDirection::Horizontal,
        ),
        arrange_spec(e, aw, ah).outer_on(ContainerDirection::Vertical) == natural_on(
            e,
            ContainerDirection::Vertical,
        ),
    decreases e, 0int,
{
    reveal_with_fuel(arrange_spec, 1);
    match e {
        Element::Row { style, children } => {
            lemma_container_matches_measure(style, children@, ContainerDirection::Horizontal, aw, ah);
        },
        Element::Column { style, children } => {
            lemma_container_matches_measure(style, children@, ContainerDirection::Vertical, aw, ah);
        },
        _ => {},
    }
}

/// What rigid children take in the flow of a container is what they take
/// by their measure.
proof fn lemma_content_matches_measure(
    kids: Seq<Element>,
    dir: ContainerDirection,
    main_avail: int,
    rule: FillRule,
    cross_avail: int,
    upto: int,
)
    requires
        0 <= upto <= kids.len(),
        all_rigid(kids, kids.len() as int),
    ensures
        content_sum(kids, dir, main_avail, rule, cross_avail, upto) == natural_sum(kids, dir, upto),
        cross_max(kids, dir, main_avail, rule, cross_avail, upto) == natural_max(
            kids,
            dir.spec_cross(),
            upto,
        ),
    decreases kids, upto,
{
    if upto > 0 {
        lemma_content_matches_measure(kids, dir, main_avail, rule, cross_avail, upto - 1);
        let kid = kids[upto - 1];
        lemma_all_rigid_each(kids, kids.len() as int, upto - 1);
        let main = offer(kid, dir, main_avail, rule);
        lemma_layout_matches_measure(
            kid,
            width_of(dir, main, cross_avail),
            height_of(dir, main, cross_avail),
        );
        let n = flow_node(kid, dir, main, cross_avail);
        reveal_with_fuel(arrange_spec, 1);
        assert(n == arrange_spec(
            kid,
            width_of(dir, main, cross_avail),
            height_of(dir, main, cross_avail),
        ));
        assert(n.outer_on(dir) == natural_on(kid, dir));
        assert(n.outer_on(dir.spec_cross()) == natural_on(kid, dir.spec_cross()));
    }
}

/// A rigid container takes its natural extent on both axes.
proof fn lemma_container_matches_measure(
    style: Style,
    kids: Seq<Element>,
    dir: ContainerDirection,
    aw: int,
    ah: int,
)
    requires
        !(style.width is Fill) && !(style.width is Percent),
        !(style.height is Fill) && !(style.height is Percent),
        all_rigid(kids, kids.len() as int),
    ensures
        ({
            let p = plan_flow(style, kids, dir, aw, ah);
            let cross = dir.spec_cross();
            &&& p.own_main == natural_extent(
                style.spec_size_on(dir),
                container_content(
                    style.padding.spec_before(dir) as int,
                    style.padding.spec_after(dir) as int,
                    style.gap as int,
                    kids,
                    dir,
                    dir,
                ),
                style.spec_min_on(dir),
                style.spec_max_on(dir),
            )
            &&& p.own_cross == natural_extent(
                style.spec_size_on(cross),
                container_content(
                    style.padding.spec_before(cross) as int,
                    style.padding.spec_after(cross) as int,
                    style.gap as int,
                    kids,
                    dir,
                    cross,
                ),
                style.spec_min_on(cross),
                style.spec_max_on(cross),
            )
        }),
    decreases kids, kids.len() + 1,
{
    reveal(flow_offer);
    reveal(flow_frame);
    let p = plan_flow(style, kids, dir, aw, ah);
    lemma_content_matches_measure(
        kids,
        dir,
        p.main_avail,
        p.rule,
        p.cross_avail,
        kids.len() as int,
    );
}

/// Whether every intent of a list is for a node with an index from `lo`
/// up to, not including, `hi`, and the indices do not fall along the list.
pub open spec fn in_traversal_order(intents: Seq<Intent>, lo: int, hi: int) -> bool {
    &&& forall|k: int| 0 <= k < intents.len() ==> lo <= (#[trigger] intents[k]).index < hi
    &&& forall|j: int, k: int|
        0 <= j <= k < intents.len() ==> (#[trigger] intents[j]).index <= (#[trigger] intents[k]).index
}

/// The dispatch numbers the nodes of a tree in traversal order, and its
/// results follow that order: a tree whose root has the index `base` uses
/// the indices from `base` up to `base` plus the number of its nodes, all
/// hovered indices are among them, and the intents come with indices that
/// are among them and never fall.
pub proof fn lemma_dispatch_follows_traversal(
    n: NodeView,
    base: int,
    px: int,
    py: int,
    clicked: bool,
    last: Set<usize>,
)
    requires
        0 <= base,
        base + node_count(n) <= usize::MAX,
    ensures
        forall|i: usize| #[trigger]
            tree_hovered(n, base, px, py).contains(i) ==> base <= i < base + node_count(n),
        in_traversal_order(
            tree_intents(n, base, px, py, clicked, last),
            base,
            base + node_count(n),
        ),
    decreases n, 0int,
{
    match n.kind {
        KindView::Children(c) => {
            lemma_kids_follow_traversal(c, base + 1, c.len() as int, px, py, clicked, last);
            assert forall|i: usize| #[trigger]
                tree_hovered(n, base, px, py).contains(i) implies base <= i < base + node_count(
                n,
            ) by {
                assert(kids_hovered(c, base + 1, c.len() as int, px, py).contains(i));
            }
        },
        _ => {
            let cb = callbacks_of(n);
            let a = fired(cb.on_hover, base, IntentKind::Hover);
            let b = if !last.contains(base as usize) {
                fired(cb.on_just_hovered, base, IntentKind::JustHovered)
            } else {
                Seq::empty()
            };
            let c = if clicked {
                fired(cb.on_click, base, IntentKind::Click)
            } else {
                Seq::empty()
            };
            let got = tree_intents(n, base, px, py, clicked, last);
            if n.interactive() && pointer_over(n, px, py) {
                assert(got == a + b + c);
            }
            assert forall|i: usize| #[trigger]
                tree_hovered(n, base, px, py).contains(i) implies base <= i < base + node_count(
                n,
            ) by {
                if n.interactive() && pointer_over(n, px, py) {
                    assert(Set::<usize>::empty().insert(base as usize).contains(i));
                    assert(i == base as usize);
                } else {
                    assert(Set::<usize>::empty().contains(i));
                }
            }
            assert forall|k: int| 0 <= k < got.len() implies (#[trigger] got[k]).index == base by {
                if n.interactive() && pointer_over(n, px, py) {
                    if k < a.len() {
                        assert(got[k] == a[k]);
                    } else if k < a.len() + b.len() {
                        assert(got[k] == b[k - a.len()]);
                    } else {
                        assert(got[k] == c[k - a.len() - b.len()]);
                    }
                }
            }
        },
    }
}

/// As `lemma_dispatch_follows_traversal`, for the trees of the first `upto`
/// children, the first of which has the index `base`.
proof fn lemma_kids_follow_traversal(
    c: Seq<NodeView>,
    base: int,
    upto: int,
    px: int,
    py: int,
    clicked: bool,
    last: Set<usize>,
)
    requires
        0 <= base,
        0 <= upto <= c.len(),
        base + kids_count(c, c.len() as int) <= usize::MAX,
    ensures
        kids_count(c, upto) <= kids_count(c, c.len() as int),
        forall|i: usize| #[trigger]
            kids_hovered(c, base, upto, px, py).contains(i) ==> base <= i < base + kids_count(
                c,
                upto,
            ),
        in_traversal_order(
            kids_intents(c, base, upto, px, py, clicked, last),
            base,
            base + kids_count(c, upto),
        ),
    decreases c, upto,
{
    lemma_kids_count_grows(c, upto, c.len() as int);
    if upto <= 0 {
        assert forall|i: usize| #[trigger]
            kids_hovered(c, base, upto, px, py).contains(i) implies base <= i < base + kids_count(
            c,
            upto,
        ) by {
            assert(Set::<usize>::empty().contains(i));
        }
    } else {
        lemma_kids_follow_traversal(c, base, upto - 1, px, py, clicked, last);
        let start = base + kids_count(c, upto - 1);
        lemma_dispatch_follows_traversal(c[upto - 1], start, px, py, clicked, last);
        assert forall|i: usize| #[trigger]
            kids_hovered(c, base, upto, px, py).contains(i) implies base <= i < base + kids_count(
            c,
            upto,
        ) by {
            let earlier = kids_hovered(c, base, upto - 1, px, py);
            let this = tree_hovered(c[upto - 1], start, px, py);
            assert(earlier.union(this).contains(i));
            if earlier.contains(i) {
            } else {
                assert(this.contains(i));
            }
        }
        let before = kids_intents(c, base, upto - 1, px, py, clicked, last);
        let here = tree_intents(c[upto - 1], start, px, py, clicked, last);
        let all = kids_intents(c, base, upto, px, py, clicked, last);
        assert(all == before + here);
        assert forall|k: int| 0 <= k < all.len() implies base <= (#[trigger] all[k]).index < base
            + kids_count(c, upto) by {
            if k < before.len() {
                assert(all[k] == before[k]);
            } else {
                assert(all[k] == here[k - before.len()]);
            }
        }
        assert forall|j: int, k: int| 0 <= j <= k < all.len() implies (#[trigger] all[j]).index <= (
        #[trigger] all[k]).index by {
            if k < before.len() {
                assert(all[j] == before[j] && all[k] == before[k]);
            } else if j < before.len() {
                assert(all[j] == before[j] && all[k] == here[k - before.len()]);
            } else {
                assert(all[j] == here[j - before.len()] && all[k] == here[k - before.len()]);
            }
        }
    }
}

/// Whether two hover sets agree on the indices from `lo` up to, not
/// including, `hi`.
pub open spec fn agree_between(a: Set<usize>, b: Set<usize>, lo: int, hi: int) -> bool {
    forall|i: usize| lo <= i < hi ==> (a.contains(i) <==> b.contains(i))
}

/// Whether no intent of a list tells of a pointer that came or went.
pub open spec fn no_transition(intents: Seq<Intent>) -> bool {
    forall|k: int|
        0 <= k < intents.len() ==> (#[trigger] intents[k]).kind != IntentKind::JustHovered
            && intents[k].kind != IntentKind::JustUnhovered
}

/// Among the children of a container, an index in the range of one child
/// is hovered exactly where it is hovered in the tree of that child.
proof fn lemma_kids_hovered_at(
    c: Seq<NodeView>,
    base: int,
    upto: int,
    j: int,
    i: usize,
    px: int,
    py: int,
)
    requires
        0 <= base,
        0 <= j < c.len(),
        0 <= upto <= c.len(),
        base + kids_count(c, c.len() as int) <= usize::MAX,
        base + kids_count(c, j) <= i < base + kids_count(c, j + 1),
    ensures
        kids_hovered(c, base, upto, px, py).contains(i) <==> (j < upto && tree_hovered(
            c[j],
            base + kids_count(c, j),
            px,
            py,
        ).contains(i)),
    decreases upto,
{
    if upto <= 0 {
        assert(!Set::<usize>::empty().contains(i));
    } else {
        let m = upto - 1;
        lemma_kids_hovered_at(c, base, m, j, i, px, py);
        lemma_kids_count_grows(c, m + 1, c.len() as int);
        lemma_kids_count_grows(c, m, m + 1);
        let start = base + kids_count(c, m);
        let earlier = kids_hovered(c, base, m, px, py);
        let this = tree_hovered(c[m], start, px, py);
        assert(kids_hovered(c, base, upto, px, py) == earlier.union(this));
        assert(earlier.union(this).contains(i) <==> (earlier.contains(i) || this.contains(i)));
        lemma_dispatch_follows_traversal(c[m], start, px, py, false, Set::empty());
        if m < j {
            lemma_kids_count_grows(c, m + 1, j);
            assert(!this.contains(i));
        } else if m > j {
            lemma_kids_count_grows(c, j + 1, m);
            assert(!this.contains(i));
        }
    }
}

/// A frame in which nothing changed has no transitions.
///
/// Let the hover set of the last frame agree, on the indices of a tree,
/// with what the pointer is over now: as it does where the pointer and the
/// tree are those of the last frame. Then no just-hovered and no
/// just-unhovered intent is due for any node of the tree; what is due is
/// hover and click intents alone.
pub proof fn lemma_unchanged_frame_has_no_transition(
    n: NodeView,
    base: int,
    px: int,
    py: int,
    clicked: bool,
    last: Set<usize>,
)
    requires
        0 <= base,
        base + node_count(n) <= usize::MAX,
        agree_between(last, tree_hovered(n, base, px, py), base, base + node_count(n)),
    ensures
        no_transition(tree_intents(n, base, px, py, clicked, last)),
    decreases n, 0int,
{
    match n.kind {
        KindView::Children(c) => {
            assert(tree_hovered(n, base, px, py) == kids_hovered(
                c,
                base + 1,
                c.len() as int,
                px,
                py,
            ));
            lemma_kids_unchanged(c, base + 1, c.len() as int, px, py, clicked, last);
        },
        _ => {
            let cb = callbacks_of(n);
            let got = tree_intents(n, base, px, py, clicked, last);
            let a = fired(cb.on_hover, base, IntentKind::Hover);
            let c = if clicked {
                fired(cb.on_click, base, IntentKind::Click)
            } else {
                Seq::empty()
            };
            let over = n.interactive() && pointer_over(n, px, py);
            assert(last.contains(base as usize) <==> tree_hovered(n, base, px, py).contains(
                base as usize,
            ));
            if over {
                assert(Set::<usize>::empty().insert(base as usize).contains(base as usize));
                assert(last.contains(base as usize));
                assert(got =~= a + c);
                assert forall|k: int| 0 <= k < got.len() implies (#[trigger] got[k]).kind
                    != IntentKind::JustHovered && got[k].kind != IntentKind::JustUnhovered by {
                    if k < a.len() {
                        assert(got[k] == a[k]);
                    } else {
                        assert(got[k] == c[k - a.len()]);
                    }
                }
            } else {
                assert(!Set::<usize>::empty().contains(base as usize));
                assert(!last.contains(base as usize));
                assert(got =~= Seq::<Intent>::empty());
            }
        },
    }
}

/// As `lemma_unchanged_frame_has_no_transition`, for the trees of the first
/// `upto` children, the first of which has the index `base`.
proof fn lemma_kids_unchanged(
    c: Seq<NodeView>,
    base: int,
    upto: int,
    px: int,
    py: int,
    clicked: bool,
    last: Set<usize>,
)
    requires
        0 <= base,
        0 <= upto <= c.len(),
        base + kids_count(c, c.len() as int) <= usize::MAX,
        agree_between(
            last,
            kids_hovered(c, base, c.len() as int, px, py),
            base,
            base + kids_count(c, c.len() as int),
        ),
    ensures
        no_transition(kids_intents(c, base, upto, px, py, clicked, last)),
    decreases c, upto,
{
    if upto > 0 {
        let m = upto - 1;
        lemma_kids_unchanged(c, base, m, px, py, clicked, last);
        lemma_kids_count_grows(c, m + 1, c.len() as int);
        lemma_kids_count_grows(c, m, m + 1);
        let start = base + kids_count(c, m);
        let child = c[m];
        assert(kids_count(c, m + 1) == kids_count(c, m) + node_count(child));
        assert forall|i: usize| start <= i < start + node_count(child) implies (last.contains(i)
            <==> tree_hovered(child, start, px, py).contains(i)) by {
            lemma_kids_hovered_at(c, base, c.len() as int, m, i, px, py);
        }
        lemma_unchanged_frame_has_no_transition(child, start, px, py, clicked, last);
        let before = kids_intents(c, base, m, px, py, clicked, last);
        let here = tree_intents(child, start, px, py, clicked, last);
        let all = kids_intents(c, base, upto, px, py, clicked, last);
        assert(all == before + here);
        assert forall|k: int| 0 <= k < all.len() implies (#[trigger] all[k]).kind
            != IntentKind::JustHovered && all[k].kind != IntentKind::JustUnhovered by {
            if k < before.len() {
                assert(all[k] == before[k]);
            } else {
                assert(all[k] == here[k - before.len()]);
            }
        }
    }
}

/// A click intent is due for a node exactly when the pointer is over it and
/// the left button just went down; not for one of the two alone.
pub proof fn lemma_click_needs_both(
    n: NodeView,
    index: usize,
    px: int,
    py: int,
    clicked: bool,
    last: Set<usize>,
    action: ActionId,
)
    requires
        n.interactive(),
        callbacks_of(n).on_click == Some(action),
    ensures
        node_intents(n, index as int, px, py, clicked, last).contains(
            Intent { index, kind: IntentKind::Click, action },
        ) <==> (pointer_over(n, px, py) && clicked),
{
    let cb = callbacks_of(n);
    let want = Intent { index, kind: IntentKind::Click, action };
    let got = node_intents(n, index as int, px, py, clicked, last);
    let a = fired(cb.on_hover, index as int, IntentKind::Hover);
    let b = if !last.contains(index) {
        fired(cb.on_just_hovered, index as int, IntentKind::JustHovered)
    } else {
        Seq::empty()
    };
    let c = if clicked {
        fired(cb.on_click, index as int, IntentKind::Click)
    } else {
        Seq::empty()
    };
    if pointer_over(n, px, py) {
        assert(got == a + b + c);
        if clicked {
            assert(c[0] == want);
            assert(got[(a.len() + b.len()) as int] == want);
        } else {
            assert(c.len() == 0);
            if got.contains(want) {
                let j = choose|j: int| 0 <= j < got.len() && got[j] == want;
                if j < a.len() {
                    assert(a[j].kind == IntentKind::Hover);
                } else {
                    assert(b[j - a.len()].kind == IntentKind::JustHovered);
                }
            }
        }
    } else {
        if got.contains(want) {
            let j = choose|j: int| 0 <= j < got.len() && got[j] == want;
            assert(got[j].kind == IntentKind::JustUnhovered);
        }
    }
}

/// The hover intents of a node with all the hover actions registered
/// follow the pointer: while it is over the node, the hover intent is due
/// every frame and the just-hovered intent in the first of them; when it
/// has left, the just-unhovered intent is due once; after that none is.
pub proof fn lemma_hover_transitions(
    n: NodeView,
    index: usize,
    px: int,
    py: int,
    last: Set<usize>,
    hover: ActionId,
    entered: ActionId,
    left: ActionId,
)
    requires
        n.interactive(),
        callbacks_of(n).on_hover == Some(hover),
        callbacks_of(n).on_just_hovered == Some(entered),
        callbacks_of(n).on_just_unhovered == Some(left),
        callbacks_of(n).on_click is None,
    ensures
        node_intents(n, index as int, px, py, false, last) == if pointer_over(n, px, py) {
            if last.contains(index) {
                seq![Intent { index, kind: IntentKind::Hover, action: hover }]
            } else {
                seq![
                    Intent { index, kind: IntentKind::Hover, action: hover },
                    Intent { index, kind: IntentKind::JustHovered, action: entered },
                ]
            }
        } else {
            if last.contains(index) {
                seq![Intent { index, kind: IntentKind::JustUnhovered, action: left }]
            } else {
                Seq::<Intent>::empty()
            }
        },
{
    let got = node_intents(n, index as int, px, py, false, last);
    if pointer_over(n, px, py) {
        if last.contains(index) {
            assert(got =~= seq![Intent { index, kind: IntentKind::Hover, action: hover }]);
        } else {
            assert(got =~= seq![
                Intent { index, kind: IntentKind::Hover, action: hover },
                Intent { index, kind: IntentKind::JustHovered, action: entered },
            ]);
        }
    } else {
        if last.contains(index) {
            assert(got =~= seq![Intent { index, kind: IntentKind::JustUnhovered, action: left }]);
        } else {
            assert(got =~= Seq::<Intent>::empty());
        }
    }
}

} // verus!
