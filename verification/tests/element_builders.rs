use bento::color::Color;
use bento::element::{button, empty, rect, row, text, Callbacks, Element};
use bento::fonts::FontId;
use bento::size::{Align, Size};
use bento::style::{ContainerDirection, Edges, Overflow, Position, Style};

#[test]
fn the_default_style_asks_for_nothing() {
    let s = Style::default();
    assert_eq!(s.width, Size::Auto);
    assert_eq!(s.height, Size::Auto);
    assert_eq!((s.min_width, s.max_width, s.min_height, s.max_height), (None, None, None, None));
    assert_eq!((s.grow, s.shrink), (0, None));
    assert_eq!((s.align_x, s.align_y, s.align_self), (Align::Start, Align::Start, None));
    assert_eq!(s.padding, Edges::default());
    assert_eq!(s.margin, Edges::default());
    assert_eq!(s.inset, Edges::default());
    assert_eq!(s.gap, 0);
    assert_eq!(s.position, Position::Relative);
    assert_eq!(s.background, None);
    assert_eq!((s.border_radius, s.border_color, s.border_thickness), (0, None, 0));
    assert_eq!(s.opacity, 255);
    assert_eq!(s.overflow, Overflow::Visible);
    assert_eq!(s.shadow_color, Color::transparent());
    assert_eq!((s.shadow_offset_x, s.shadow_offset_y, s.shadow_blur), (0, 0, 0));
    assert_eq!(Position::default(), Position::Relative);
    assert_eq!(Overflow::default(), Overflow::Visible);
}

#[test]
fn edges_constructors() {
    assert_eq!(Edges::all(3), Edges { top: 3, right: 3, bottom: 3, left: 3 });
    assert_eq!(Edges::horizontal(3), Edges { top: 0, right: 3, bottom: 0, left: 3 });
    assert_eq!(Edges::vertical(3), Edges { top: 3, right: 0, bottom: 3, left: 0 });
    assert_eq!(Edges::top(3), Edges { top: 3, right: 0, bottom: 0, left: 0 });
    assert_eq!(Edges::bottom(3), Edges { top: 0, right: 0, bottom: 3, left: 0 });
    assert_eq!(Edges::left(3), Edges { top: 0, right: 0, bottom: 0, left: 3 });
    assert_eq!(Edges::right(3), Edges { top: 0, right: 3, bottom: 0, left: 0 });
    let e = Edges { top: 1, right: 2, bottom: 3, left: 4 };
    assert_eq!((e.before(ContainerDirection::Horizontal), e.after(ContainerDirection::Horizontal)), (4, 2));
    assert_eq!((e.before(ContainerDirection::Vertical), e.after(ContainerDirection::Vertical)), (1, 3));
    assert_eq!(ContainerDirection::Horizontal.cross(), ContainerDirection::Vertical);
    assert_eq!(ContainerDirection::Vertical.cross(), ContainerDirection::Horizontal);
}

#[test]
fn builders_set_the_style() {
    let e = rect(Color::red())
        .width(Size::Fixed(10))
        .height(Size::Percent(20))
        .min_width(1)
        .max_width(2)
        .min_height(3)
        .max_height(4)
        .grow(5)
        .shrink(6)
        .align_x(Align::Center)
        .align_y(Align::End)
        .align_self(Align::SpaceAround)
        .padding(Edges::all(7))
        .margin(Edges::all(8))
        .gap(9)
        .absolute()
        .inset(Edges::all(10))
        .background(Color::blue())
        .border_radius(11)
        .border(Color::green(), 12)
        .opacity(13)
        .shadow(Color::white(), 14, 15, 16)
        .overflow_hidden();
    let s = e.style();
    assert_eq!((s.width, s.height), (Size::Fixed(10), Size::Percent(20)));
    assert_eq!((s.min_width, s.max_width, s.min_height, s.max_height), (Some(1), Some(2), Some(3), Some(4)));
    assert_eq!((s.grow, s.shrink), (5, Some(6)));
    assert_eq!((s.align_x, s.align_y, s.align_self), (Align::Center, Align::End, Some(Align::SpaceAround)));
    assert_eq!((s.padding, s.margin, s.inset), (Edges::all(7), Edges::all(8), Edges::all(10)));
    assert_eq!(s.gap, 9);
    assert_eq!(s.position, Position::Absolute);
    assert_eq!(s.background, Some(Color::blue()));
    assert_eq!((s.border_radius, s.border_color, s.border_thickness), (11, Some(Color::green()), 12));
    assert_eq!(s.opacity, 13);
    assert_eq!(s.shadow_color, Color::white());
    assert_eq!((s.shadow_offset_x, s.shadow_offset_y, s.shadow_blur), (14, 15, 16));
    assert_eq!(s.overflow, Overflow::Hidden);
    assert_eq!(e.overflow_scroll().style().overflow, Overflow::Scroll);
}

#[test]
fn a_later_builder_wins() {
    let e = row(vec![]).padding(Edges::horizontal(32)).padding(Edges::vertical(16));
    assert_eq!(e.style().padding, Edges::vertical(16));
}

#[test]
fn an_empty_element_takes_no_style() {
    let e = empty().width(Size::Fill).gap(4).on_click(3).font(FontId(1)).measured(3, 4);
    assert!(matches!(e, Element::Empty));
    assert_eq!(empty().style().width, Size::Auto);
}

#[test]
fn with_style_replaces_the_whole_style() {
    let mut s = Style::default();
    s.gap = 77;
    let e = row(vec![empty(), empty()]).gap(3).with_style(s);
    assert_eq!(e.style().gap, 77);
    match e {
        Element::Row { children, .. } => assert_eq!(children.len(), 2),
        _ => panic!("not a row"),
    }
}

#[test]
fn constructors_start_from_the_default() {
    match rect(Color::red()) {
        Element::Rect { color, hover_color, callbacks, .. } => {
            assert_eq!(color, Color::red());
            assert_eq!(hover_color, None);
            assert_eq!(callbacks, Callbacks::default());
        }
        _ => panic!("not a rect"),
    }
    match text("hi", Color::green()) {
        Element::Text { content, color, font, measured_w, measured_h, .. } => {
            assert_eq!(content, "hi");
            assert_eq!(color, Color::green());
            assert_eq!(font, None);
            assert_eq!((measured_w, measured_h), (0, 0));
        }
        _ => panic!("not a text"),
    }
    match button("go") {
        Element::Button { label, label_w, label_h, callbacks, .. } => {
            assert_eq!(label, "go");
            assert_eq!((label_w, label_h), (0, 0));
            assert_eq!(callbacks, Callbacks::default());
        }
        _ => panic!("not a button"),
    }
    assert!(matches!(bento::element::column(vec![]), Element::Column { .. }));
    assert!(matches!(row(vec![]), Element::Row { .. }));
}

#[test]
fn font_and_measure_apply_to_what_has_them() {
    match text("hi", Color::green()).font(FontId(2)).measured(30, 12) {
        Element::Text { font, measured_w, measured_h, .. } => {
            assert_eq!(font, Some(FontId(2)));
            assert_eq!((measured_w, measured_h), (30, 12));
        }
        _ => panic!("not a text"),
    }
    match button("go").font(FontId(2)).measured(30, 12) {
        Element::Button { label_w, label_h, .. } => assert_eq!((label_w, label_h), (30, 12)),
        _ => panic!("not a button"),
    }
    assert!(matches!(rect(Color::red()).font(FontId(2)).measured(1, 1), Element::Rect { .. }));
}

#[test]
fn actions_apply_to_rects_and_buttons() {
    let c = rect(Color::red()).on_click(1).on_hover(2).on_just_hovered(3).on_just_unhovered(4).callbacks();
    assert_eq!(
        c,
        Callbacks { on_hover: Some(2), on_just_hovered: Some(3), on_just_unhovered: Some(4), on_click: Some(1) }
    );
    assert_eq!(button("go").on_click(9).callbacks().on_click, Some(9));
    assert_eq!(text("hi", Color::red()).on_click(9).callbacks(), Callbacks::default());
    assert_eq!(row(vec![]).on_click(9).callbacks(), Callbacks::default());
}

#[test]
fn hover_colour_applies_to_rects() {
    match rect(Color::red()).hover_color(Color::blue()) {
        Element::Rect { hover_color, .. } => assert_eq!(hover_color, Some(Color::blue())),
        _ => panic!("not a rect"),
    }
    assert!(matches!(button("go").hover_color(Color::blue()), Element::Button { .. }));
}
