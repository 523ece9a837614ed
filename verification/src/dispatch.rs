//! Hit-testing and dispatch: which nodes the pointer is over, and which of
//! the registered actions that calls for.
//!
//! Every node of a layout tree has an index: its position in the pre-order
//! traversal, the root at 0. A node's first child follows it directly, and
//! a child follows the last descendant of the child before it. Containers,
//! texts and empty nodes are counted too, so that the index of a node does
//! not depend on which nodes are interactive. Where a tree has more nodes
//! than a `usize` can count, every node beyond that has the largest index.

use vstd::prelude::*;
use std::collections::HashSet;
use crate::element::{ActionId, Callbacks};
use crate::events::{hit, point_in_rect};
use crate::node::{
    lemma_view_kind, lemma_view_rect, node_view, views, KindView, LayoutKind, LayoutNode, NodeView,
};

verus! {

broadcast use vstd::std_specs::hash::group_hash_axioms;

/// What the pointer did to a node.
#[derive(Debug, Clone, Copy, PartialEq, Eq, Structural)]
pub enum IntentKind {
    /// It is over the node.
    Hover,
    /// It is over the node and was not in the last frame.
    JustHovered,
    /// It is no longer over the node.
    JustUnhovered,
    /// The left button went down over the node.
    Click,
}

/// An action that is due: the host applies it to its own state after the
/// frame.
#[derive(Debug, Clone, Copy, PartialEq, Eq, Structural)]
pub struct Intent {
    /// The index of the node.
    pub index: usize,
    /// What the pointer did.
    pub kind: IntentKind,
    /// The action that was registered for it.
    pub action: ActionId,
}

/// The number of nodes in a tree.
pub open spec fn node_count(n: NodeView) -> nat
    decreases n,
{
    match n.kind {
        KindView::Children(c) => 1 + kids_count(c, c.len() as int),
        _ => 1,
    }
}

/// The number of nodes in the trees of the first `upto` children.
pub open spec fn kids_count(c: Seq<NodeView>, upto: int) -> nat
    decreases c, upto,
{
    if upto <= 0 || upto > c.len() {
        0
    } else {
        kids_count(c, upto - 1) + node_count(c[upto - 1])
    }
}

/// An index pinned to what a `usize` holds.
pub open spec fn cap(i: int) -> int {
    if i > usize::MAX {
        usize::MAX as int
    } else {
        i
    }
}

/// Whether the pointer at `(px, py)` is over a node: inside its rectangle,
/// the edges included.
pub open spec fn pointer_over(n: NodeView, px: int, py: int) -> bool {
    point_in_rect(px, py, n.x, n.y, n.w, n.h)
}

/// The actions registered on a node; none on a node that is not
/// interactive.
pub open spec fn callbacks_of(n: NodeView) -> Callbacks {
    match n.kind {
        KindView::Rect { callbacks, .. } => callbacks,
        KindView::Button { callbacks, .. } => callbacks,
        _ => crate::element::no_callbacks(),
    }
}

/// The intent for one registered action, or nothing where none is
/// registered.
pub open spec fn fired(action: Option<ActionId>, index: int, kind: IntentKind) -> Seq<Intent> {
    match action {
        Some(a) => seq![Intent { index: index as usize, kind, action: a }],
        None => Seq::empty(),
    }
}

/// The intents of one node with the given index.
///
/// While the pointer is over an interactive node, its hover action is due;
/// its just-hovered action too if the node was not hovered in the last
/// frame; and its click action if the left button just went down. While the
/// pointer is elsewhere, its just-unhovered action is due if the node was
/// hovered in the last frame. A node that is not interactive has no intents.
pub open spec fn node_intents(
    n: NodeView,
    index: int,
    px: int,
    py: int,
    clicked: bool,
    last: Set<usize>,
) -> Seq<Intent> {
    let cb = callbacks_of(n);
    if !n.interactive() {
        Seq::empty()
    } else if pointer_over(n, px, py) {
        fired(cb.on_hover, index, IntentKind::Hover) + (if !last.contains(index as usize) {
            fired(cb.on_just_hovered, index, IntentKind::JustHovered)
        } else {
            Seq::empty()
        }) + (if clicked {
            fired(cb.on_click, index, IntentKind::Click)
        } else {
            Seq::empty()
        })
    } else if last.contains(index as usize) {
        fired(cb.on_just_unhovered, index, IntentKind::JustUnhovered)
    } else {
        Seq::empty()
    }
}

/// The intents of a tree whose root has the given index, in traversal
/// order.
pub open spec fn tree_intents(
    n: NodeView,
    index: int,
    px: int,
    py: int,
    clicked: bool,
    last: Set<usize>,
) -> Seq<Intent>
    decreases n, 0int,
{
    match n.kind {
        KindView::Children(c) => kids_intents(c, cap(index + 1), c.len() as int, px, py, clicked, last),
        _ => node_intents(n, index, px, py, clicked, last),
    }
}

/// The intents of the trees of the first `upto` children, the first of
/// which has the index `base`.
pub open spec fn kids_intents(
    c: Seq<NodeView>,
    base: int,
    upto: int,
    px: int,
    py: int,
    clicked: bool,
    last: Set<usize>,
) -> Seq<Intent>
    decreases c, upto,
{
    if upto <= 0 || upto > c.len() {
        Seq::empty()
    } else {
        kids_intents(c, base, upto - 1, px, py, clicked, last) + tree_intents(
            c[upto - 1],
            cap(base + kids_count(c, upto - 1)),
            px,
            py,
            clicked,
            last,
        )
    }
}

/// The indices of the interactive nodes that the pointer is over, in a tree
/// whose root has the given index.
pub open spec fn tree_hovered(n: NodeView, index: int, px: int, py: int) -> Set<usize>
    decreases n, 0int,
{
    match n.kind {
        KindView::Children(c) => kids_hovered(c, cap(index + 1), c.len() as int, px, py),
        _ => if n.interactive() && pointer_over(n, px, py) {
            Set::empty().insert(index as usize)
        } else {
            Set::empty()
        },
    }
}

/// The indices of the interactive nodes that the pointer is over, in the
/// trees of the first `upto` children, the first of which has the index
/// `base`.
pub open spec fn kids_hovered(c: Seq<NodeView>, base: int, upto: int, px: int, py: int) -> Set<usize>
    decreases c, upto,
{
    if upto <= 0 || upto > c.len() {
        Set::empty()
    } else {
        kids_hovered(c, base, upto - 1, px, py).union(
            tree_hovered(c[upto - 1], cap(base + kids_count(c, upto - 1)), px, py),
        )
    }
}

/// A tree with the hover flag of every rectangle and button set to whether
/// the pointer is over it.
pub open spec fn marked(n: NodeView, px: int, py: int) -> NodeView
    decreases n,
{
    let over = pointer_over(n, px, py);
    NodeView {
        kind: match n.kind {
            KindView::Rect { color, hover_color, hovered, callbacks } => KindView::Rect {
                color,
                hover_color,
                hovered: over,
                callbacks,
            },
            KindView::Button { label, label_w, label_h, hovered, callbacks } => KindView::Button {
                label,
                label_w,
                label_h,
                hovered: over,
                callbacks,
            },
            KindView::Children(c) => KindView::Children(
                Seq::new(
                    c.len(),
                    |i: int|
                        if 0 <= i < c.len() {
                            marked(c[i], px, py)
                        } else {
                            crate::node::empty_view()
                        },
                ),
            ),
            other => other,
        },
        ..n
    }
}

/// The count of the first children is at most the count of more of them.
pub proof fn lemma_kids_count_grows(c: Seq<NodeView>, few: int, many: int)
    requires
        0 <= few <= many <= c.len(),
    ensures
        kids_count(c, few) <= kids_count(c, many),
    decreases many - few,
{
    if few < many {
        lemma_kids_count_grows(c, few, many - 1);
    }
}

/// The index after `index`; the largest index is its own successor.
fn next_index(index: usize) -> (next: usize)
    ensures
        next == cap(index + 1),
{
    if index < usize::MAX {
        index + 1
    } else {
        index
    }
}

/// The intents of one node.
fn fire(
    out: &mut Vec<Intent>,
    cb: &Callbacks,
    interactive: bool,
    over: bool,
    was: bool,
    clicked: bool,
    index: usize,
)
    ensures
        final(out)@ == old(out)@ + (if !interactive {
            Seq::<Intent>::empty()
        } else if over {
            fired(cb.on_hover, index as int, IntentKind::Hover) + (if !was {
                fired(cb.on_just_hovered, index as int, IntentKind::JustHovered)
            } else {
                Seq::empty()
            }) + (if clicked {
                fired(cb.on_click, index as int, IntentKind::Click)
            } else {
                Seq::empty()
            })
        } else if was {
            fired(cb.on_just_unhovered, index as int, IntentKind::JustUnhovered)
        } else {
            Seq::empty()
        }),
{
    let ghost before = out@;
    if !interactive {
        assert(out@ =~= before + Seq::<Intent>::empty());
    } else if over {
        let ghost a = fired(cb.on_hover, index as int, IntentKind::Hover);
        let ghost b = if !was {
            fired(cb.on_just_hovered, index as int, IntentKind::JustHovered)
        } else {
            Seq::empty()
        };
        let ghost c = if clicked {
            fired(cb.on_click, index as int, IntentKind::Click)
        } else {
            Seq::empty()
        };
        match cb.on_hover {
            Some(a) => out.push(Intent { index, kind: IntentKind::Hover, action: a }),
            None => {},
        }
        assert(out@ =~= before + a);
        if !was {
            match cb.on_just_hovered {
                Some(a) => out.push(Intent { index, kind: IntentKind::JustHovered, action: a }),
                None => {},
            }
        }
        assert(out@ =~= before + a + b);
        if clicked {
            match cb.on_click {
                Some(a) => out.push(Intent { index, kind: IntentKind::Click, action: a }),
                None => {},
            }
        }
        assert(out@ =~= before + (a + b + c));
    } else if was {
        match cb.on_just_unhovered {
            Some(a) => out.push(Intent { index, kind: IntentKind::JustUnhovered, action: a }),
            None => {},
        }
        assert(out@ =~= before + fired(cb.on_just_unhovered, index as int, IntentKind::JustUnhovered));
    } else {
        assert(out@ =~= before + Seq::<Intent>::empty());
    }
}

/// Walks a tree whose root has the given index; hands back the index that
/// follows its last node.
fn dispatch_node(
    node: &LayoutNode,
    px: i32,
    py: i32,
    clicked: bool,
    last: &HashSet<usize>,
    this: &mut HashSet<usize>,
    out: &mut Vec<Intent>,
    index: usize,
) -> (next: usize)
    ensures
        next == cap(index + node_count(node@)),
        final(out)@ == old(out)@ + tree_intents(
            node@,
            index as int,
            px as int,
            py as int,
            clicked,
            last@,
        ),
        final(this)@ == old(this)@.union(tree_hovered(node@, index as int, px as int, py as int)),
    decreases node, 0int,
{
    proof {
        lemma_view_kind(*node);
        lemma_view_rect(*node);
    }
    let ghost out0 = out@;
    let ghost this0 = this@;
    let over: bool = hit(px, py, node.x, node.y, node.w, node.h);
    let was: bool = last.contains(&index);
    match &node.kind {
        LayoutKind::Rect { callbacks, .. } => {
            if over {
                this.insert(index);
            }
            fire(out, callbacks, true, over, was, clicked, index);
            assert(out@ =~= out0 + tree_intents(node@, index as int, px as int, py as int, clicked, last@));
            assert(this@ =~= this0.union(tree_hovered(node@, index as int, px as int, py as int)));
            next_index(index)
        },
        LayoutKind::Button { callbacks, .. } => {
            if over {
                this.insert(index);
            }
            fire(out, callbacks, true, over, was, clicked, index);
            assert(out@ =~= out0 + tree_intents(node@, index as int, px as int, py as int, clicked, last@));
            assert(this@ =~= this0.union(tree_hovered(node@, index as int, px as int, py as int)));
            next_index(index)
        },
        LayoutKind::Children(nodes) => {
            let next = dispatch_kids(nodes, px, py, clicked, last, this, out, next_index(index));
            assert(out@ =~= out0 + tree_intents(node@, index as int, px as int, py as int, clicked, last@));
            assert(this@ =~= this0.union(tree_hovered(node@, index as int, px as int, py as int)));
            next
        },
        _ => {
            assert(out@ =~= out0 + tree_intents(node@, index as int, px as int, py as int, clicked, last@));
            assert(this@ =~= this0.union(tree_hovered(node@, index as int, px as int, py as int)));
            next_index(index)
        },
    }
}

/// Walks the trees of a list of children, the first of which has the index
/// `base`; hands back the index that follows the last node.
fn dispatch_kids(
    nodes: &Vec<LayoutNode>,
    px: i32,
    py: i32,
    clicked: bool,
    last: &HashSet<usize>,
    this: &mut HashSet<usize>,
    out: &mut Vec<Intent>,
    base: usize,
) -> (next: usize)
    ensures
        next == cap(base + kids_count(views(nodes@), nodes@.len() as int)),
        final(out)@ == old(out)@ + kids_intents(
            views(nodes@),
            base as int,
            nodes@.len() as int,
            px as int,
            py as int,
            clicked,
            last@,
        ),
        final(this)@ == old(this)@.union(
            kids_hovered(views(nodes@), base as int, nodes@.len() as int, px as int, py as int),
        ),
    decreases nodes, 1int,
{
    let ghost c = views(nodes@);
    let ghost out0 = out@;
    let ghost this0 = this@;
    let mut index: usize = base;
    let mut i: usize = 0;
    assert(out@ =~= out0 + kids_intents(c, base as int, 0, px as int, py as int, clicked, last@));
    assert(this@ =~= this0.union(kids_hovered(c, base as int, 0, px as int, py as int)));
    while i < nodes.len()
        invariant
            i <= nodes@.len(),
            c == views(nodes@),
            index == cap(base + kids_count(c, i as int)),
            out@ == out0 + kids_intents(c, base as int, i as int, px as int, py as int, clicked, last@),
            this@ == this0.union(kids_hovered(c, base as int, i as int, px as int, py as int)),
        decreases nodes@.len() - i,
    {
        proof {
            reveal_with_fuel(node_view, 1);
            assert(c[i as int] == nodes@[i as int]@);
        }
        index = dispatch_node(&nodes[i], px, py, clicked, last, this, out, index);
        proof {
            let t = tree_intents(
                c[i as int],
                cap(base + kids_count(c, i as int)),
                px as int,
                py as int,
                clicked,
                last@,
            );
            let h = tree_hovered(
                c[i as int],
                cap(base + kids_count(c, i as int)),
                px as int,
                py as int,
            );
            assert(out@ =~= out0 + (kids_intents(
                c,
                base as int,
                i as int,
                px as int,
                py as int,
                clicked,
                last@,
            ) + t));
            assert(this@ =~= this0.union(
                kids_hovered(c, base as int, i as int, px as int, py as int).union(h),
            ));
        }
        i += 1;
    }
    index
}

/// Finds what the pointer at `(px, py)` is over, and which actions are due.
///
/// `clicked` says whether the left button just went down; `hovered_last` is
/// the set that the dispatch of the last frame handed back. The result is
/// the list of intents, in traversal order, and the set of the indices of
/// the interactive nodes that the pointer is over now.
pub fn dispatch(
    root: &LayoutNode,
    px: i32,
    py: i32,
    clicked: bool,
    hovered_last: &HashSet<usize>,
) -> (r: (Vec<Intent>, HashSet<usize>))
    ensures
        r.0@ == tree_intents(root@, 0, px as int, py as int, clicked, hovered_last@),
        r.1@ == tree_hovered(root@, 0, px as int, py as int),
{
    let mut out: Vec<Intent> = Vec::new();
    let mut this: HashSet<usize> = HashSet::new();
    let _ = dispatch_node(root, px, py, clicked, hovered_last, &mut this, &mut out, 0);
    assert(out@ =~= tree_intents(root@, 0, px as int, py as int, clicked, hovered_last@));
    assert(this@ =~= tree_hovered(root@, 0, px as int, py as int));
    (out, this)
}

/// Sets the hover flag of every rectangle and button to whether the pointer
/// at `(px, py)` is over it.
pub fn mark_hovered(node: &mut LayoutNode, px: i32, py: i32)
    ensures
        final(node)@ == marked(old(node)@, px as int, py as int),
    decreases *old(node),
{
    reveal_with_fuel(node_view, 1);
    let ghost before = node@;
    let over: bool = hit(px, py, node.x, node.y, node.w, node.h);
    match &mut node.kind {
        LayoutKind::Rect { hovered, .. } => {
            *hovered = over;
        },
        LayoutKind::Button { hovered, .. } => {
            *hovered = over;
        },
        LayoutKind::Children(nodes) => {
            mark_all(nodes, px, py);
        },
        _ => {},
    }
    proof {
        if before.kind is Children {
            assert(node@.kind->Children_0 =~= marked(before, px as int, py as int).kind->Children_0);
        }
    }
}

/// Sets the hover flags in every tree of a list.
fn mark_all(nodes: &mut Vec<LayoutNode>, px: i32, py: i32)
    ensures
        final(nodes)@.len() == old(nodes)@.len(),
        forall|j: int|
            0 <= j < old(nodes)@.len() ==> (#[trigger] final(nodes)@[j])@ == marked(
                old(nodes)@[j]@,
                px as int,
                py as int,
            ),
    decreases *old(nodes),
{
    let mut i: usize = 0;
    while i < nodes.len()
        invariant
            i <= nodes@.len(),
            nodes@.len() == old(nodes)@.len(),
            forall|j: int|
                0 <= j < i ==> (#[trigger] nodes@[j])@ == marked(old(nodes)@[j]@, px as int, py as int),
            forall|j: int| i <= j < nodes@.len() ==> nodes@[j] == old(nodes)@[j],
        decreases nodes@.len() - i,
    {
        mark_hovered(&mut nodes[i], px, py);
        i += 1;
    }
}

} // verus!
