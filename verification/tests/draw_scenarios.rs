use bento::clip::ClipRect;
use bento::color::Color;
use bento::dispatch::mark_hovered;
use bento::draw::{draw, draw_clipped, DrawCommand};
use bento::element::{button, empty, rect, row, text, Element};
use bento::layout::layout;
use bento::size::Size;
use bento::style::Edges;

fn swatch(c: Color, w: i32, h: i32) -> Element {
    rect(c).width(Size::Fixed(w)).height(Size::Fixed(h))
}

fn describe(cmds: &[DrawCommand]) -> Vec<String> {
    cmds.iter().map(|c| format!("{:?}", c)).collect()
}

fn plain_rect(x: i32, y: i32, w: i32, h: i32, color: Color) -> DrawCommand {
    DrawCommand::Rect { x, y, w, h, color, border_color: Color::transparent(), border_thickness: 0 }
}

#[test]
fn a_rect_is_drawn_in_its_colour() {
    let tree = layout(&swatch(Color::red(), 30, 20), 5, 6, 800, 600);
    assert_eq!(describe(&draw(&tree, false)), describe(&[plain_rect(5, 6, 30, 20, Color::red())]));
}

#[test]
fn an_empty_tree_draws_nothing() {
    assert_eq!(draw(&layout(&empty(), 0, 0, 800, 600), false).len(), 0);
    assert_eq!(draw(&layout(&row(vec![]), 0, 0, 800, 600), false).len(), 0);
}

#[test]
fn opacity_fades_fill_and_border() {
    let e = swatch(Color::rgba(10, 20, 30, 200), 30, 20).border(Color::rgba(1, 2, 3, 100), 2).opacity(128);
    let tree = layout(&e, 0, 0, 800, 600);
    assert_eq!(
        describe(&draw(&tree, false)),
        describe(&[DrawCommand::Rect {
            x: 0,
            y: 0,
            w: 30,
            h: 20,
            color: Color::rgba(10, 20, 30, 100),
            border_color: Color::rgba(1, 2, 3, 50),
            border_thickness: 2,
        }])
    );
}

#[test]
fn a_radius_rounds_the_corners() {
    let e = swatch(Color::red(), 30, 20).border_radius(4);
    let tree = layout(&e, 0, 0, 800, 600);
    assert_eq!(
        describe(&draw(&tree, false)),
        describe(&[DrawCommand::RoundedRect {
            x: 0,
            y: 0,
            w: 30,
            h: 20,
            radius: 4,
            color: Color::red(),
            border_color: Color::transparent(),
            border_thickness: 0,
        }])
    );
}

#[test]
fn a_shadow_comes_before_the_shape() {
    let e = swatch(Color::red(), 30, 20).shadow(Color::rgba(0, 0, 0, 128), 2, 3, 8).border_radius(4);
    let tree = layout(&e, 0, 0, 800, 600);
    let cmds = draw(&tree, false);
    assert_eq!(cmds.len(), 2);
    assert_eq!(
        describe(&cmds[..1]),
        describe(&[DrawCommand::Shadow {
            x: 0,
            y: 0,
            w: 30,
            h: 20,
            color: Color::rgba(0, 0, 0, 128),
            radius: 4,
            blur: 8,
            offset_x: 2,
            offset_y: 3,
        }])
    );
}

#[test]
fn no_shadow_without_blur_or_colour() {
    let no_blur = swatch(Color::red(), 30, 20).shadow(Color::rgba(0, 0, 0, 128), 2, 3, 0);
    assert_eq!(draw(&layout(&no_blur, 0, 0, 800, 600), false).len(), 1);
    let no_colour = swatch(Color::red(), 30, 20).shadow(Color::rgba(0, 0, 0, 0), 2, 3, 8);
    assert_eq!(draw(&layout(&no_colour, 0, 0, 800, 600), false).len(), 1);
}

#[test]
fn a_hovered_rect_takes_its_hover_colour() {
    let e = swatch(Color::red(), 30, 20).hover_color(Color::blue());
    let mut tree = layout(&e, 0, 0, 800, 600);
    assert_eq!(describe(&draw(&tree, false)), describe(&[plain_rect(0, 0, 30, 20, Color::red())]));
    mark_hovered(&mut tree, 10, 10);
    assert_eq!(describe(&draw(&tree, false)), describe(&[plain_rect(0, 0, 30, 20, Color::blue())]));
    mark_hovered(&mut tree, 100, 10);
    assert_eq!(describe(&draw(&tree, false)), describe(&[plain_rect(0, 0, 30, 20, Color::red())]));
}

#[test]
fn a_text_is_drawn_where_it_starts() {
    let e = text("hello", Color::green()).measured(40, 20).padding(Edges::all(5));
    let tree = layout(&e, 10, 10, 800, 600);
    assert_eq!(
        describe(&draw(&tree, false)),
        describe(&[DrawCommand::Text {
            content: "hello".to_string(),
            x: 15,
            y: 15,
            color: Color::green(),
            font: None,
        }])
    );
}

fn button_fill(cmds: &[DrawCommand]) -> Color {
    match &cmds[0] {
        DrawCommand::Rect { color, .. } => *color,
        _ => panic!("no rect"),
    }
}

#[test]
fn a_button_is_a_shape_and_a_centred_label() {
    let e = button("go").measured(30, 16).width(Size::Fixed(100)).height(Size::Fixed(40));
    let tree = layout(&e, 10, 20, 800, 600);
    let cmds = draw(&tree, false);
    assert_eq!(
        describe(&cmds),
        describe(&[
            plain_rect(10, 20, 100, 40, Color::rgb(64, 64, 89)),
            DrawCommand::Text {
                content: "go".to_string(),
                x: 45,
                y: 32,
                color: Color::rgb(235, 235, 242),
                font: None,
            },
        ])
    );
}

#[test]
fn a_button_brightens_when_hovered_and_clicked() {
    let e = button("go").measured(30, 16);
    let mut tree = layout(&e, 0, 0, 800, 600);
    assert_eq!(button_fill(&draw(&tree, true)), Color::rgb(64, 64, 89));
    mark_hovered(&mut tree, 5, 5);
    assert_eq!(button_fill(&draw(&tree, false)), Color::rgb(89, 89, 115));
    assert_eq!(button_fill(&draw(&tree, true)), Color::rgb(128, 128, 153));

    let own = button("go").measured(30, 16).background(Color::rgba(100, 240, 0, 9));
    let mut tree = layout(&own, 0, 0, 800, 600);
    assert_eq!(button_fill(&draw(&tree, false)), Color::rgba(100, 240, 0, 9));
    mark_hovered(&mut tree, 5, 5);
    assert_eq!(button_fill(&draw(&tree, false)), Color::rgb(120, 255, 20));
    assert_eq!(button_fill(&draw(&tree, true)), Color::rgb(138, 255, 38));
}

#[test]
fn a_container_draws_its_background_then_its_children() {
    let e = row(vec![swatch(Color::red(), 10, 10), swatch(Color::green(), 10, 10)])
        .background(Color::white())
        .padding(Edges::all(2));
    let tree = layout(&e, 0, 0, 800, 600);
    assert_eq!(
        describe(&draw(&tree, false)),
        describe(&[
            plain_rect(0, 0, 24, 14, Color::white()),
            plain_rect(2, 2, 10, 10, Color::red()),
            plain_rect(12, 2, 10, 10, Color::green()),
        ])
    );
}

#[test]
fn a_hidden_container_culls_and_clips_its_children() {
    let e = row(vec![
        swatch(Color::red(), 40, 10),
        swatch(Color::green(), 40, 10),
        swatch(Color::blue(), 40, 10),
        swatch(Color::white(), 40, 10),
    ])
    .width(Size::Fixed(60))
    .height(Size::Fixed(10))
    .gap(1)
    .overflow_hidden();
    let tree = layout(&e, 0, 0, 800, 600);
    let clip = ClipRect { x0: 0, y0: 0, x1: 60, y1: 10 };
    assert_eq!(
        describe(&draw(&tree, false)),
        describe(&[
            DrawCommand::ClippedRect { x: 0, y: 0, w: 40, h: 10, color: Color::red(), clip },
            DrawCommand::ClippedRect { x: 41, y: 0, w: 40, h: 10, color: Color::green(), clip },
        ])
    );
}

#[test]
fn a_visible_container_draws_what_overflows() {
    let e = row(vec![swatch(Color::red(), 40, 10), swatch(Color::green(), 40, 10)])
        .width(Size::Fixed(30))
        .height(Size::Fixed(10));
    let tree = layout(&e, 0, 0, 800, 600);
    assert_eq!(
        describe(&draw(&tree, false)),
        describe(&[plain_rect(0, 0, 40, 10, Color::red()), plain_rect(40, 0, 40, 10, Color::green())])
    );
}

#[test]
fn nested_clips_intersect() {
    let inner = row(vec![swatch(Color::red(), 500, 500)])
        .width(Size::Fixed(100))
        .height(Size::Fixed(100))
        .overflow_scroll();
    let outer = row(vec![swatch(Color::green(), 30, 30), inner])
        .width(Size::Fixed(80))
        .height(Size::Fixed(50))
        .overflow_hidden();
    let tree = layout(&outer, 0, 0, 800, 600);
    let outer_clip = ClipRect { x0: 0, y0: 0, x1: 80, y1: 50 };
    let both = ClipRect { x0: 30, y0: 0, x1: 80, y1: 50 };
    assert_eq!(
        describe(&draw(&tree, false)),
        describe(&[
            DrawCommand::ClippedRect { x: 0, y: 0, w: 30, h: 30, color: Color::green(), clip: outer_clip },
            DrawCommand::ClippedRect { x: 30, y: 0, w: 500, h: 500, color: Color::red(), clip: both },
        ])
    );
}

#[test]
fn round_corners_survive_a_clip_only_when_fully_inside() {
    let e = row(vec![
        swatch(Color::red(), 40, 10).border_radius(3),
        swatch(Color::green(), 40, 10).border_radius(3),
    ])
    .width(Size::Fixed(60))
    .height(Size::Fixed(10))
    .overflow_hidden();
    let tree = layout(&e, 0, 0, 800, 600);
    let clip = ClipRect { x0: 0, y0: 0, x1: 60, y1: 10 };
    assert_eq!(
        describe(&draw(&tree, false)),
        describe(&[
            DrawCommand::RoundedRect {
                x: 0,
                y: 0,
                w: 40,
                h: 10,
                radius: 3,
                color: Color::red(),
                border_color: Color::transparent(),
                border_thickness: 0,
            },
            DrawCommand::ClippedRect { x: 40, y: 0, w: 40, h: 10, color: Color::green(), clip },
        ])
    );
}

#[test]
fn draw_clipped_starts_from_a_clip() {
    let e = row(vec![swatch(Color::red(), 40, 10), text("t", Color::white()).measured(5, 5)]);
    let tree = layout(&e, 0, 0, 800, 600);
    let far = Some(ClipRect { x0: 100, y0: 100, x1: 200, y1: 200 });
    assert_eq!(draw_clipped(&tree, false, far).len(), 0);
    assert_eq!(draw_clipped(&tree, false, None).len(), 2);
    let near = Some(ClipRect { x0: 41, y0: 0, x1: 200, y1: 200 });
    assert_eq!(
        describe(&draw_clipped(&tree, false, near)),
        describe(&[DrawCommand::Text {
            content: "t".to_string(),
            x: 40,
            y: 0,
            color: Color::white(),
            font: None,
        }])
    );
}
