use bento::color::Color;
use bento::element::{button, empty, rect, row, text, Element};
use bento::layout::{arrange, is_fill_w, layout, place};
use bento::measure::measure;
use bento::node::{LayoutKind, LayoutNode};
use bento::size::{Align, Size};
use bento::style::Edges;

fn kids(n: &LayoutNode) -> &Vec<LayoutNode> {
    match &n.kind {
        LayoutKind::Children(v) => v,
        _ => panic!("not a container"),
    }
}

fn rect_of(n: &LayoutNode) -> (i32, i32, i32, i32) {
    (n.x, n.y, n.w, n.h)
}

fn boxed(w: i32, h: i32) -> Element {
    rect(Color::red()).width(Size::Fixed(w)).height(Size::Fixed(h))
}

fn col(children: Vec<Element>) -> Element {
    bento::element::column(children)
}

#[test]
fn percent_children_of_a_fill_row() {
    let tree = row(vec![
        rect(Color::red()).width(Size::Percent(25)),
        rect(Color::green()).width(Size::Percent(50)),
        rect(Color::blue()).width(Size::Percent(25)),
    ])
    .width(Size::Fill);
    let node = layout(&tree, 0, 0, 300, 100);
    assert_eq!((node.x, node.y, node.w), (0, 0, 300));
    let c = kids(&node);
    assert_eq!(c.len(), 3);
    assert_eq!((c[0].x, c[0].w), (0, 75));
    assert_eq!((c[1].x, c[1].w), (75, 150));
    assert_eq!((c[2].x, c[2].w), (225, 75));
}

#[test]
fn auto_column_of_two_texts() {
    let tree = col(vec![
        text("a", Color::white()).measured(40, 20),
        text("b", Color::white()).measured(60, 20),
    ])
    .gap(10);
    assert_eq!(measure(&tree), (60, 50));
    let node = layout(&tree, 0, 0, 800, 600);
    assert_eq!((node.w, node.h), (60, 50));
    let c = kids(&node);
    assert_eq!(rect_of(&c[0]), (0, 0, 40, 20));
    assert_eq!(rect_of(&c[1]), (0, 30, 60, 20));
}

#[test]
fn fill_children_share_what_is_left() {
    let tree = row(vec![
        boxed(50, 10),
        rect(Color::red()).width(Size::Fill),
        boxed(70, 10),
        rect(Color::red()).width(Size::Fill),
    ])
    .width(Size::Fill)
    .gap(10);
    let node = layout(&tree, 0, 0, 300, 100);
    let c = kids(&node);
    assert_eq!((c[0].x, c[0].w), (0, 50));
    assert_eq!((c[1].x, c[1].w), (60, 75));
    assert_eq!((c[2].x, c[2].w), (145, 70));
    assert_eq!((c[3].x, c[3].w), (225, 75));
    assert_eq!(c[3].x + c[3].w, 300);
    assert_eq!(node.w, 300);
}

#[test]
fn fill_shares_are_rounded_down() {
    let tree = row(vec![
        rect(Color::red()).width(Size::Fill),
        rect(Color::red()).width(Size::Fill),
        rect(Color::red()).width(Size::Fill),
    ])
    .width(Size::Fill);
    let node = layout(&tree, 0, 0, 100, 100);
    let c = kids(&node);
    assert_eq!((c[0].x, c[0].w), (0, 33));
    assert_eq!((c[1].x, c[1].w), (33, 33));
    assert_eq!((c[2].x, c[2].w), (66, 33));
}

#[test]
fn fill_gets_nothing_where_nothing_is_left() {
    let tree = row(vec![boxed(400, 10), rect(Color::red()).width(Size::Fill)]).width(Size::Fill);
    let node = layout(&tree, 0, 0, 300, 100);
    let c = kids(&node);
    assert_eq!((c[0].x, c[0].w), (0, 400));
    assert_eq!((c[1].x, c[1].w), (400, 0));
}

#[test]
fn a_single_fill_child_takes_everything() {
    let tree = row(vec![rect(Color::red()).width(Size::Fill).height(Size::Fill)])
        .width(Size::Fill)
        .height(Size::Fill);
    let node = layout(&tree, 0, 0, 300, 100);
    assert_eq!(rect_of(&node), (0, 0, 300, 100));
    assert_eq!(rect_of(&kids(&node)[0]), (0, 0, 300, 100));
}

#[test]
fn percent_is_of_the_inner_extent() {
    let fixed = row(vec![rect(Color::red()).width(Size::Percent(50))]).width(Size::Fixed(200));
    let fill = row(vec![rect(Color::red()).width(Size::Percent(50))]).width(Size::Fill);
    let padded = row(vec![rect(Color::red()).width(Size::Percent(50))])
        .width(Size::Fixed(220))
        .padding(Edges::horizontal(10));
    assert_eq!(kids(&layout(&fixed, 0, 0, 1000, 100))[0].w, 100);
    assert_eq!(kids(&layout(&fill, 0, 0, 200, 100))[0].w, 100);
    let node = layout(&padded, 0, 0, 1000, 100);
    assert_eq!((kids(&node)[0].x, kids(&node)[0].w), (10, 100));
}

#[test]
fn percent_is_of_what_the_gaps_leave() {
    let tree = row(vec![
        rect(Color::red()).width(Size::Percent(50)),
        rect(Color::red()).width(Size::Percent(50)),
    ])
    .width(Size::Fixed(220))
    .gap(20);
    let node = layout(&tree, 0, 0, 1000, 100);
    let c = kids(&node);
    assert_eq!((c[0].x, c[0].w), (0, 100));
    assert_eq!((c[1].x, c[1].w), (120, 100));
}

#[test]
fn a_column_is_the_transpose_of_a_row() {
    let tree = col(vec![
        boxed(10, 50),
        rect(Color::red()).height(Size::Fill),
        boxed(10, 70),
        rect(Color::red()).height(Size::Fill),
    ])
    .height(Size::Fill)
    .gap(10);
    let node = layout(&tree, 0, 0, 100, 300);
    let c = kids(&node);
    assert_eq!((c[0].y, c[0].h), (0, 50));
    assert_eq!((c[1].y, c[1].h), (60, 75));
    assert_eq!((c[2].y, c[2].h), (145, 70));
    assert_eq!((c[3].y, c[3].h), (225, 75));
    assert_eq!((node.w, node.h), (10, 300));
}

#[test]
fn the_root_is_put_where_it_is_asked() {
    let tree = row(vec![boxed(10, 10), col(vec![boxed(20, 5), boxed(20, 5)])]).gap(5);
    let node = layout(&tree, 100, 200, 800, 600);
    assert_eq!(rect_of(&node), (100, 200, 35, 10));
    let c = kids(&node);
    assert_eq!(rect_of(&c[0]), (100, 200, 10, 10));
    assert_eq!(rect_of(&c[1]), (115, 200, 20, 10));
    let cc = kids(&c[1]);
    assert_eq!(rect_of(&cc[0]), (115, 200, 20, 5));
    assert_eq!(rect_of(&cc[1]), (115, 205, 20, 5));
}

#[test]
fn layout_is_arrange_then_place() {
    let tree = row(vec![boxed(10, 10), col(vec![boxed(20, 5), boxed(20, 5)])]).gap(5);
    let mut node = arrange(&tree, 800, 600);
    assert_eq!(rect_of(&node), (0, 0, 35, 10));
    assert_eq!(rect_of(&kids(&kids(&node)[1])[1]), (0, 5, 20, 5));
    place(&mut node, 100, 200);
    assert_eq!(rect_of(&kids(&kids(&node)[1])[1]), (115, 205, 20, 5));
}

#[test]
fn padding_of_a_container_is_inside() {
    let tree = row(vec![boxed(10, 10), boxed(10, 10)])
        .padding(Edges { top: 1, right: 2, bottom: 3, left: 4 })
        .gap(5);
    let node = layout(&tree, 0, 0, 800, 600);
    assert_eq!(rect_of(&node), (0, 0, 31, 14));
    let c = kids(&node);
    assert_eq!(rect_of(&c[0]), (4, 1, 10, 10));
    assert_eq!(rect_of(&c[1]), (19, 1, 10, 10));
}

#[test]
fn padding_of_a_leaf_is_around_it() {
    let tree = row(vec![
        boxed(10, 10).padding(Edges { top: 1, right: 2, bottom: 3, left: 4 }),
        boxed(10, 10),
    ]);
    let node = layout(&tree, 0, 0, 800, 600);
    assert_eq!(rect_of(&node), (0, 0, 26, 14));
    let c = kids(&node);
    assert_eq!(rect_of(&c[0]), (4, 1, 10, 10));
    assert_eq!(rect_of(&c[1]), (16, 0, 10, 10));
}

#[test]
fn a_fill_leaf_with_padding_takes_its_share() {
    let tree = row(vec![
        rect(Color::red()).width(Size::Fill).padding(Edges::horizontal(10)),
        rect(Color::red()).width(Size::Fill),
    ])
    .width(Size::Fill);
    let node = layout(&tree, 0, 0, 200, 50);
    let c = kids(&node);
    assert_eq!((c[0].x, c[0].w), (10, 80));
    assert_eq!((c[1].x, c[1].w), (100, 100));
}

#[test]
fn children_are_aligned_across_the_direction() {
    let make = |a: Align| {
        row(vec![boxed(50, 40), boxed(50, 100)]).height(Size::Fixed(100)).align_y(a)
    };
    assert_eq!(kids(&layout(&make(Align::Start), 0, 0, 800, 600))[0].y, 0);
    assert_eq!(kids(&layout(&make(Align::Center), 0, 0, 800, 600))[0].y, 30);
    assert_eq!(kids(&layout(&make(Align::End), 0, 0, 800, 600))[0].y, 60);
    assert_eq!(kids(&layout(&make(Align::End), 0, 0, 800, 600))[1].y, 0);
    assert_eq!(kids(&layout(&make(Align::SpaceBetween), 0, 0, 800, 600))[0].y, 0);
}

#[test]
fn columns_align_along_x() {
    let tree = col(vec![boxed(40, 10), boxed(100, 10)]).align_x(Align::Center);
    let node = layout(&tree, 0, 0, 800, 600);
    assert_eq!(node.w, 100);
    assert_eq!(kids(&node)[0].x, 30);
    assert_eq!(kids(&node)[1].x, 0);
}

#[test]
fn a_child_may_align_itself() {
    let tree = row(vec![boxed(50, 40).align_self(Align::End), boxed(50, 40)])
        .height(Size::Fixed(100))
        .align_y(Align::Center);
    let node = layout(&tree, 0, 0, 800, 600);
    assert_eq!(kids(&node)[0].y, 60);
    assert_eq!(kids(&node)[1].y, 30);
}

#[test]
fn alignment_moves_a_subtree_as_a_whole() {
    let tree = row(vec![col(vec![boxed(10, 10), boxed(10, 10)])])
        .height(Size::Fixed(100))
        .align_y(Align::End);
    let node = layout(&tree, 0, 0, 800, 600);
    let inner = &kids(&node)[0];
    assert_eq!(rect_of(inner), (0, 80, 10, 20));
    assert_eq!(rect_of(&kids(inner)[0]), (0, 80, 10, 10));
    assert_eq!(rect_of(&kids(inner)[1]), (0, 90, 10, 10));
}

#[test]
fn leftover_space_is_spread_along_the_direction() {
    let make = |a: Align| {
        row(vec![boxed(50, 10), boxed(50, 10), boxed(50, 10)]).width(Size::Fixed(300)).align_x(a)
    };
    let xs = |a: Align| {
        let node = layout(&make(a), 0, 0, 800, 600);
        let c = kids(&node);
        (c[0].x, c[1].x, c[2].x)
    };
    assert_eq!(xs(Align::Start), (0, 50, 100));
    assert_eq!(xs(Align::Center), (75, 125, 175));
    assert_eq!(xs(Align::End), (150, 200, 250));
    assert_eq!(xs(Align::SpaceBetween), (0, 125, 250));
    assert_eq!(xs(Align::SpaceAround), (25, 125, 225));
    assert_eq!(xs(Align::SpaceEvenly), (37, 124, 211));
}

#[test]
fn space_between_one_child_leaves_it_at_the_start() {
    let tree = row(vec![boxed(50, 10)]).width(Size::Fixed(300)).align_x(Align::SpaceBetween);
    assert_eq!(kids(&layout(&tree, 0, 0, 800, 600))[0].x, 0);
    let none = row(vec![]).width(Size::Fixed(300)).align_x(Align::SpaceAround);
    assert_eq!(rect_of(&layout(&none, 0, 0, 800, 600)), (0, 0, 300, 0));
}

#[test]
fn an_absolute_child_is_outside_the_flow() {
    let tree = row(vec![
        boxed(50, 50),
        rect(Color::blue())
            .width(Size::Fill)
            .height(Size::Fill)
            .absolute()
            .inset(Edges { top: 20, right: 30, bottom: 40, left: 10 }),
        boxed(60, 50),
    ])
    .width(Size::Fixed(300))
    .height(Size::Fixed(100))
    .gap(5);
    let node = layout(&tree, 1000, 2000, 800, 600);
    assert_eq!(rect_of(&node), (1000, 2000, 300, 100));
    let c = kids(&node);
    assert_eq!(rect_of(&c[0]), (1000, 2000, 50, 50));
    assert_eq!(rect_of(&c[1]), (1010, 2020, 260, 40));
    assert_eq!(rect_of(&c[2]), (1055, 2000, 60, 50));
}

#[test]
fn an_absolute_child_adds_nothing_to_the_natural_size() {
    let tree = row(vec![boxed(50, 50), boxed(500, 500).absolute()]);
    assert_eq!(measure(&tree), (50, 50));
    assert_eq!(rect_of(&layout(&tree, 0, 0, 800, 600)), (0, 0, 50, 50));
}

#[test]
fn an_empty_element_takes_a_slot_of_no_size() {
    let tree = row(vec![boxed(10, 10), empty(), boxed(10, 10)]).gap(5);
    let node = layout(&tree, 0, 0, 800, 600);
    assert_eq!(node.w, 30);
    let c = kids(&node);
    assert_eq!(rect_of(&c[1]), (15, 0, 0, 0));
    assert_eq!(c[2].x, 20);
    assert_eq!(rect_of(&layout(&empty(), 3, 4, 800, 600)), (3, 4, 0, 0));
}

#[test]
fn a_text_has_its_measured_size_unless_told_otherwise() {
    let plain = text("hello", Color::white()).measured(40, 20);
    assert_eq!(rect_of(&layout(&plain, 0, 0, 800, 600)), (0, 0, 40, 20));
    let wide = text("hello", Color::white()).measured(40, 20).width(Size::Fixed(90));
    assert_eq!(rect_of(&layout(&wide, 0, 0, 800, 600)), (0, 0, 90, 20));
    let padded = text("hello", Color::white()).measured(40, 20).padding(Edges::all(5));
    assert_eq!(rect_of(&layout(&padded, 10, 10, 800, 600)), (15, 15, 40, 20));
    assert_eq!(measure(&padded), (50, 30));
}

#[test]
fn a_button_is_its_label_and_its_own_padding() {
    let b = button("ok").measured(30, 16);
    assert_eq!(rect_of(&layout(&b, 0, 0, 800, 600)), (0, 0, 54, 28));
    assert_eq!(measure(&b), (54, 28));
    let sized = button("ok").measured(30, 16).width(Size::Fixed(100)).height(Size::Fixed(40));
    assert_eq!(rect_of(&layout(&sized, 0, 0, 800, 600)), (0, 0, 100, 40));
}

#[test]
fn the_node_mirrors_the_element() {
    let b = button("ok").measured(30, 16).on_click(9);
    match layout(&b, 0, 0, 800, 600).kind {
        LayoutKind::Button { label, label_w, label_h, hovered, callbacks } => {
            assert_eq!(label, "ok");
            assert_eq!((label_w, label_h), (30, 16));
            assert!(!hovered);
            assert_eq!(callbacks.on_click, Some(9));
        }
        _ => panic!("not a button"),
    }
    let t = text("hello", Color::green()).measured(40, 20);
    match layout(&t, 0, 0, 800, 600).kind {
        LayoutKind::Text { content, color, font } => {
            assert_eq!(content, "hello");
            assert_eq!(color, Color::green());
            assert_eq!(font, None);
        }
        _ => panic!("not a text"),
    }
}

#[test]
fn clamps_bound_a_fill_child() {
    let tree = row(vec![
        rect(Color::red()).width(Size::Fill).max_width(40),
        rect(Color::red()).width(Size::Fill).min_width(200),
    ])
    .width(Size::Fill);
    let node = layout(&tree, 0, 0, 300, 100);
    let c = kids(&node);
    assert_eq!((c[0].x, c[0].w), (0, 40));
    assert_eq!((c[1].x, c[1].w), (40, 200));
}

#[test]
fn clamps_bound_a_container() {
    let tree = row(vec![rect(Color::red()).width(Size::Fill)]).width(Size::Fill).max_width(120);
    let node = layout(&tree, 0, 0, 300, 100);
    assert_eq!(node.w, 120);
    assert_eq!(kids(&node)[0].w, 120);
    let tall = col(vec![boxed(10, 10)]).min_height(50);
    assert_eq!(layout(&tall, 0, 0, 300, 100).h, 50);
}

#[test]
fn padding_larger_than_the_container_leaves_nothing() {
    let tree = row(vec![rect(Color::red()).width(Size::Fill).height(Size::Fill)])
        .width(Size::Fixed(50))
        .height(Size::Fixed(50))
        .padding(Edges::all(40));
    let node = layout(&tree, 0, 0, 300, 100);
    assert_eq!(rect_of(&node), (0, 0, 50, 50));
    assert_eq!(rect_of(&kids(&node)[0]), (40, 40, 0, 0));
}

#[test]
fn gaps_larger_than_the_container_leave_nothing() {
    let tree = row(vec![
        rect(Color::red()).width(Size::Fill),
        rect(Color::red()).width(Size::Percent(50)),
    ])
    .width(Size::Fixed(50))
    .gap(80);
    let node = layout(&tree, 0, 0, 300, 100);
    let c = kids(&node);
    assert_eq!((c[0].x, c[0].w), (0, 0));
    assert_eq!((c[1].x, c[1].w), (80, 0));
}

#[test]
fn extents_stop_at_the_largest_number() {
    let tree = row(vec![boxed(i32::MAX, 1), boxed(i32::MAX, 1), boxed(5, 1)]);
    assert_eq!(measure(&tree), (i32::MAX, 1));
    let node = layout(&tree, 0, 0, 300, 100);
    assert_eq!(node.w, i32::MAX);
    let c = kids(&node);
    assert_eq!(c[1].x, i32::MAX);
    assert_eq!(c[2].x, i32::MAX);
}

#[test]
fn natural_size_of_a_row() {
    let tree = row(vec![boxed(10, 30), boxed(20, 5), rect(Color::red()).width(Size::Fill)])
        .gap(4)
        .padding(Edges::all(3));
    assert_eq!(measure(&tree), (10 + 20 + 0 + 8 + 6, 30 + 6));
    assert_eq!(measure(&rect(Color::red()).width(Size::Percent(50)).height(Size::Fixed(7))), (0, 7));
    assert_eq!(measure(&empty()), (0, 0));
    assert_eq!(measure(&row(vec![])), (0, 0));
    assert_eq!(measure(&row(vec![]).width(Size::Fixed(9))), (9, 0));
}

#[test]
fn is_fill_w_reads_the_width() {
    assert!(is_fill_w(&rect(Color::red()).width(Size::Fill)));
    assert!(!is_fill_w(&rect(Color::red()).height(Size::Fill)));
    assert!(!is_fill_w(&rect(Color::red())));
    assert!(!is_fill_w(&empty()));
    assert!(is_fill_w(&row(vec![]).width(Size::Fill)));
}

#[test]
fn different_grow_weights_split_in_proportion() {
    let tree = row(vec![
        rect(Color::red()).width(Size::Fill).grow(1),
        boxed(100, 10),
        rect(Color::red()).width(Size::Fill).grow(2),
        rect(Color::red()).width(Size::Fill).grow(1),
    ])
    .width(Size::Fill);
    let node = layout(&tree, 0, 0, 500, 100);
    let c = kids(&node);
    assert_eq!((c[0].x, c[0].w), (0, 100));
    assert_eq!((c[1].x, c[1].w), (100, 100));
    assert_eq!((c[2].x, c[2].w), (200, 200));
    assert_eq!((c[3].x, c[3].w), (400, 100));
}

#[test]
fn weighted_shares_are_rounded_down() {
    let tree = row(vec![
        rect(Color::red()).width(Size::Fill).grow(1),
        rect(Color::red()).width(Size::Fill).grow(2),
    ])
    .width(Size::Fill);
    let node = layout(&tree, 0, 0, 100, 100);
    let c = kids(&node);
    assert_eq!((c[0].x, c[0].w), (0, 33));
    assert_eq!((c[1].x, c[1].w), (33, 66));
}

#[test]
fn a_child_without_weight_among_weighted_ones_gets_nothing() {
    let tree = row(vec![
        rect(Color::red()).width(Size::Fill),
        rect(Color::red()).width(Size::Fill).grow(3),
    ])
    .width(Size::Fill);
    let node = layout(&tree, 0, 0, 300, 100);
    let c = kids(&node);
    assert_eq!((c[0].x, c[0].w), (0, 0));
    assert_eq!((c[1].x, c[1].w), (0, 300));
}

#[test]
fn equal_grow_weights_split_equally() {
    let make = |g: u32| {
        row(vec![
            rect(Color::red()).width(Size::Fill).grow(g),
            rect(Color::red()).width(Size::Fill).grow(g),
            rect(Color::red()).width(Size::Fill).grow(g),
        ])
        .width(Size::Fill)
    };
    for g in [0, 1, 7, u32::MAX] {
        let node = layout(&make(g), 0, 0, 100, 100);
        let c = kids(&node);
        assert_eq!((c[0].w, c[1].w, c[2].w), (33, 33, 33));
    }
}

#[test]
fn grow_weights_of_other_children_do_not_count() {
    let tree = row(vec![
        rect(Color::red()).width(Size::Fill).grow(1),
        boxed(100, 10).grow(50),
        rect(Color::red()).width(Size::Fill).grow(1).absolute(),
        rect(Color::red()).width(Size::Fill).grow(1),
    ])
    .width(Size::Fill);
    let node = layout(&tree, 0, 0, 500, 100);
    let c = kids(&node);
    assert_eq!((c[0].x, c[0].w), (0, 200));
    assert_eq!((c[1].x, c[1].w), (200, 100));
    assert_eq!((c[2].x, c[2].w), (0, 500));
    assert_eq!((c[3].x, c[3].w), (300, 200));
}

#[test]
fn large_grow_weights_do_not_overflow() {
    let tree = row(vec![
        rect(Color::red()).width(Size::Fill).grow(u32::MAX),
        rect(Color::red()).width(Size::Fill).grow(u32::MAX - 1),
    ])
    .width(Size::Fill);
    let node = layout(&tree, 0, 0, i32::MAX, 100);
    let c = kids(&node);
    assert_eq!(c[0].w, 1073741823);
    assert_eq!(c[1].w, 1073741823);
    assert_eq!(c[1].x, 1073741823);
}

#[test]
fn a_text_keeps_its_shaped_height_whatever_it_asks_for() {
    for height in [Size::Auto, Size::Fixed(5), Size::Fill, Size::Percent(50)] {
        let t = text("hello", Color::white())
            .measured(40, 20)
            .height(height)
            .min_height(90)
            .max_height(3)
            .padding(Edges { top: 1, right: 2, bottom: 3, left: 4 });
        assert_eq!(measure(&t), (46, 24));
        assert_eq!(rect_of(&layout(&t, 0, 0, 800, 600)), (4, 1, 40, 20));
        assert_eq!(rect_of(&layout(&t, 0, 0, 10, 10)), (4, 1, 40, 20));
    }
}

#[test]
fn a_text_does_not_fill_a_column() {
    let tree = col(vec![
        text("hello", Color::white()).measured(40, 20).height(Size::Fill),
        rect(Color::red()).height(Size::Fill),
    ])
    .height(Size::Fill);
    let node = layout(&tree, 0, 0, 100, 300);
    let c = kids(&node);
    assert_eq!(rect_of(&c[0]), (0, 0, 40, 20));
    assert_eq!((c[1].y, c[1].h), (20, 280));
    assert_eq!(measure(&tree), (40, 0));
}

#[test]
fn a_text_may_fill_a_row_with_its_width() {
    let tree = row(vec![
        text("hello", Color::white()).measured(40, 20).width(Size::Fill),
        boxed(100, 10),
    ])
    .width(Size::Fill);
    let node = layout(&tree, 0, 0, 300, 100);
    let c = kids(&node);
    assert_eq!(rect_of(&c[0]), (0, 0, 200, 20));
    assert_eq!(c[1].x, 200);
    assert!(is_fill_w(&text("hello", Color::white()).width(Size::Fill)));
}

#[test]
fn the_children_end_at_the_inner_edge_where_the_shares_divide() {
    let tree = row(vec![
        rect(Color::red()).width(Size::Fill),
        boxed(30, 10),
        rect(Color::red()).width(Size::Fill),
        rect(Color::red()).width(Size::Fill),
    ])
    .width(Size::Fixed(340))
    .padding(Edges::horizontal(20))
    .gap(10);
    let node = layout(&tree, 7, 0, 900, 100);
    let c = kids(&node);
    let first = &c[0];
    let last = &c[3];
    assert_eq!(c[0].w + c[1].w + c[2].w + c[3].w + 3 * 10, 300);
    assert_eq!(first.x, 7 + 20);
    assert_eq!(last.x + last.w, first.x + 300);
    assert_eq!((c[0].w, c[2].w, c[3].w), (80, 80, 80));
}
