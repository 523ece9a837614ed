use bento::color::Color;
use bento::dispatch::{dispatch, mark_hovered, Intent, IntentKind};
use bento::element::{button, empty, rect, row, text, Element};
use bento::layout::layout;
use bento::node::{LayoutKind, LayoutNode};
use bento::size::Size;
use std::collections::HashSet;

const HOVER: u32 = 1;
const ENTER: u32 = 2;
const LEAVE: u32 = 3;
const CLICK: u32 = 4;

fn wired_button() -> Element {
    button("ok")
        .width(Size::Fixed(100))
        .height(Size::Fixed(40))
        .on_hover(HOVER)
        .on_just_hovered(ENTER)
        .on_just_unhovered(LEAVE)
        .on_click(CLICK)
}

fn intent(index: usize, kind: IntentKind, action: u32) -> Intent {
    Intent { index, kind, action }
}

fn set(items: &[usize]) -> HashSet<usize> {
    items.iter().copied().collect()
}

fn stack(children: Vec<Element>) -> Element {
    bento::element::column(children)
}

#[test]
fn hover_follows_the_pointer_over_four_frames() {
    let tree = layout(&wired_button(), 0, 0, 800, 600);
    assert_eq!((tree.x, tree.y, tree.w, tree.h), (0, 0, 100, 40));

    let (intents, hovered) = dispatch(&tree, 50, 20, false, &HashSet::new());
    assert_eq!(
        intents,
        vec![intent(0, IntentKind::Hover, HOVER), intent(0, IntentKind::JustHovered, ENTER)]
    );
    assert_eq!(hovered, set(&[0]));

    let (intents, hovered) = dispatch(&tree, 50, 20, false, &hovered);
    assert_eq!(intents, vec![intent(0, IntentKind::Hover, HOVER)]);
    assert_eq!(hovered, set(&[0]));

    let (intents, hovered) = dispatch(&tree, 500, 500, false, &hovered);
    assert_eq!(intents, vec![intent(0, IntentKind::JustUnhovered, LEAVE)]);
    assert_eq!(hovered, set(&[]));

    let (intents, hovered) = dispatch(&tree, 500, 500, false, &hovered);
    assert_eq!(intents, vec![]);
    assert_eq!(hovered, set(&[]));
}

#[test]
fn the_edges_of_a_node_count_as_over() {
    let tree = layout(&wired_button(), 0, 0, 800, 600);
    for (px, py) in [(0, 0), (100, 0), (0, 40), (100, 40), (50, 40)] {
        let (_, hovered) = dispatch(&tree, px, py, false, &HashSet::new());
        assert_eq!(hovered, set(&[0]));
    }
    for (px, py) in [(-1, 0), (101, 0), (0, 41), (50, 50), (0, -1)] {
        let (intents, hovered) = dispatch(&tree, px, py, true, &HashSet::new());
        assert_eq!(hovered, set(&[]));
        assert_eq!(intents, vec![]);
    }
}

#[test]
fn a_click_needs_the_pointer_and_the_button() {
    let tree = layout(&wired_button(), 0, 0, 800, 600);
    let last = set(&[0]);
    let (intents, _) = dispatch(&tree, 50, 20, true, &last);
    assert_eq!(
        intents,
        vec![intent(0, IntentKind::Hover, HOVER), intent(0, IntentKind::Click, CLICK)]
    );
    let (intents, _) = dispatch(&tree, 50, 20, false, &last);
    assert_eq!(intents, vec![intent(0, IntentKind::Hover, HOVER)]);
    let (intents, _) = dispatch(&tree, 500, 500, true, &HashSet::new());
    assert_eq!(intents, vec![]);
}

#[test]
fn intents_of_one_node_come_in_a_fixed_order() {
    let tree = layout(&wired_button(), 0, 0, 800, 600);
    let (intents, _) = dispatch(&tree, 50, 20, true, &HashSet::new());
    assert_eq!(
        intents,
        vec![
            intent(0, IntentKind::Hover, HOVER),
            intent(0, IntentKind::JustHovered, ENTER),
            intent(0, IntentKind::Click, CLICK),
        ]
    );
}

#[test]
fn only_registered_actions_are_due() {
    let plain = button("ok").width(Size::Fixed(100)).height(Size::Fixed(40)).on_click(CLICK);
    let tree = layout(&plain, 0, 0, 800, 600);
    let (intents, hovered) = dispatch(&tree, 50, 20, false, &HashSet::new());
    assert_eq!(intents, vec![]);
    assert_eq!(hovered, set(&[0]));
    let (intents, _) = dispatch(&tree, 50, 20, true, &hovered);
    assert_eq!(intents, vec![intent(0, IntentKind::Click, CLICK)]);
}

fn sample_tree() -> LayoutNode {
    let tree = stack(vec![
        text("title", Color::white()).measured(100, 20),
        row(vec![
            rect(Color::red())
                .width(Size::Fixed(50))
                .height(Size::Fixed(50))
                .on_click(10)
                .on_just_hovered(11),
            empty(),
            button("go").width(Size::Fixed(50)).height(Size::Fixed(50)).on_click(20),
        ]),
        rect(Color::blue()).width(Size::Fixed(100)).height(Size::Fixed(30)).on_hover(30),
    ]);
    layout(&tree, 0, 0, 800, 600)
}

#[test]
fn every_node_has_an_index_in_traversal_order() {
    let tree = sample_tree();
    let (_, hovered) = dispatch(&tree, 10, 30, false, &HashSet::new());
    assert_eq!(hovered, set(&[3]));
    let (intents, hovered) = dispatch(&tree, 75, 30, true, &HashSet::new());
    assert_eq!(hovered, set(&[5]));
    assert_eq!(intents, vec![intent(5, IntentKind::Click, 20)]);
    let (intents, hovered) = dispatch(&tree, 10, 80, true, &HashSet::new());
    assert_eq!(hovered, set(&[6]));
    assert_eq!(intents, vec![intent(6, IntentKind::Hover, 30)]);
}

#[test]
fn texts_and_containers_are_not_hovered() {
    let tree = sample_tree();
    let (intents, hovered) = dispatch(&tree, 10, 10, true, &set(&[0, 1, 2, 4]));
    assert_eq!(hovered, set(&[]));
    assert_eq!(intents, vec![]);
}

#[test]
fn intents_come_in_traversal_order() {
    let tree = sample_tree();
    let (intents, hovered) = dispatch(&tree, 50, 50, true, &HashSet::new());
    assert_eq!(hovered, set(&[3, 5]));
    assert_eq!(
        intents,
        vec![
            intent(3, IntentKind::JustHovered, 11),
            intent(3, IntentKind::Click, 10),
            intent(5, IntentKind::Click, 20),
        ]
    );
}

#[test]
fn the_last_node_has_the_last_index() {
    let tree = sample_tree();
    let (intents, hovered) = dispatch(&tree, 100, 80, false, &set(&[3, 6]));
    assert_eq!(hovered, set(&[6]));
    assert_eq!(intents, vec![intent(6, IntentKind::Hover, 30)]);
    let (intents, hovered) = dispatch(&layout(&empty(), 0, 0, 1, 1), 0, 0, true, &set(&[0]));
    assert_eq!(hovered, set(&[]));
    assert_eq!(intents, vec![]);
}

fn hovered_flag(n: &LayoutNode) -> bool {
    match &n.kind {
        LayoutKind::Rect { hovered, .. } => *hovered,
        LayoutKind::Button { hovered, .. } => *hovered,
        _ => panic!("not interactive"),
    }
}

fn children_of(n: &LayoutNode) -> &Vec<LayoutNode> {
    match &n.kind {
        LayoutKind::Children(v) => v,
        _ => panic!("not a container"),
    }
}

#[test]
fn mark_hovered_sets_the_flags() {
    let mut tree = sample_tree();
    mark_hovered(&mut tree, 50, 50);
    let r = children_of(&children_of(&tree)[1]);
    assert!(hovered_flag(&r[0]));
    assert!(hovered_flag(&r[2]));
    assert!(!hovered_flag(&children_of(&tree)[2]));
    mark_hovered(&mut tree, 10, 80);
    let r = children_of(&children_of(&tree)[1]);
    assert!(!hovered_flag(&r[0]));
    assert!(!hovered_flag(&r[2]));
    assert!(hovered_flag(&children_of(&tree)[2]));
}

#[test]
fn an_unchanged_frame_has_no_transitions() {
    let tree = layout(
        &stack(vec![
            row(vec![
                rect(Color::red())
                    .width(Size::Fixed(50))
                    .height(Size::Fixed(50))
                    .on_hover(1)
                    .on_just_hovered(2)
                    .on_just_unhovered(3)
                    .on_click(4),
                rect(Color::red())
                    .width(Size::Fixed(50))
                    .height(Size::Fixed(50))
                    .on_hover(5)
                    .on_just_hovered(6)
                    .on_just_unhovered(7)
                    .on_click(8),
            ]),
            wired_button(),
        ]),
        0,
        0,
        800,
        600,
    );
    for (px, py) in [(10, 10), (50, 20), (75, 10), (20, 60), (500, 500)] {
        let (first, hovered) = dispatch(&tree, px, py, false, &HashSet::new());
        let (again, same) = dispatch(&tree, px, py, true, &hovered);
        assert_eq!(same, hovered);
        assert!(again
            .iter()
            .all(|i| i.kind == IntentKind::Hover || i.kind == IntentKind::Click));
        assert_eq!(
            first.iter().filter(|i| i.kind == IntentKind::JustHovered).count(),
            hovered.len()
        );
    }
    let (_, hovered) = dispatch(&tree, 50, 20, false, &HashSet::new());
    assert_eq!(hovered, set(&[2, 3]));
}
