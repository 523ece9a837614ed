//! The draw traversal: from a layout tree to the list of what a renderer
//! has to paint, in painting order, with what lies outside the clip left
//! out.

use vstd::prelude::*;
use crate::clip::{child_clip_spec, is_outside, make_child_clip, outside_spec, ClipRect};
use crate::color::Color;
use crate::fonts::FontId;
use crate::node::{
    lemma_view_kind, lemma_view_rect, node_view, views, KindView, LayoutKind, LayoutNode, NodeView,
};
use crate::units::{centered, centered_spec};

verus! {

/// Something to paint.
#[derive(Debug, PartialEq, Eq)]
pub enum DrawCommand {
    /// A blurred shadow behind the rectangle at `(x, y)` of `w` by `h`.
    Shadow {
        x: i32,
        y: i32,
        w: i32,
        h: i32,
        color: Color,
        radius: i32,
        blur: i32,
        offset_x: i32,
        offset_y: i32,
    },
    /// A rectangle with a border, drawn whole.
    Rect { x: i32, y: i32, w: i32, h: i32, color: Color, border_color: Color, border_thickness: i32 },
    /// A rectangle with round corners and a border, drawn whole.
    RoundedRect {
        x: i32,
        y: i32,
        w: i32,
        h: i32,
        radius: i32,
        color: Color,
        border_color: Color,
        border_thickness: i32,
    },
    /// A plain rectangle, of which only what lies inside `clip` is drawn.
    ClippedRect { x: i32, y: i32, w: i32, h: i32, color: Color, clip: ClipRect },
    /// A run of text that starts at `(x, y)`.
    Text { content: String, x: i32, y: i32, color: Color, font: Option<FontId> },
}

/// The mathematical value of a `DrawCommand`.
pub enum CommandView {
    Shadow {
        x: int,
        y: int,
        w: int,
        h: int,
        color: Color,
        radius: int,
        blur: int,
        offset_x: int,
        offset_y: int,
    },
    Rect { x: int, y: int, w: int, h: int, color: Color, border_color: Color, border_thickness: int },
    RoundedRect {
        x: int,
        y: int,
        w: int,
        h: int,
        radius: int,
        color: Color,
        border_color: Color,
        border_thickness: int,
    },
    ClippedRect { x: int, y: int, w: int, h: int, color: Color, clip: ClipRect },
    Text { content: Seq<char>, x: int, y: int, color: Color, font: Option<FontId> },
}

impl View for DrawCommand {
    type V = CommandView;

    open spec fn view(&self) -> CommandView {
        match *self {
            DrawCommand::Shadow { x, y, w, h, color, radius, blur, offset_x, offset_y } => CommandView::Shadow {
                x: x as int,
                y: y as int,
                w: w as int,
                h: h as int,
                color,
                radius: radius as int,
                blur: blur as int,
                offset_x: offset_x as int,
                offset_y: offset_y as int,
            },
            DrawCommand::Rect { x, y, w, h, color, border_color, border_thickness } => CommandView::Rect {
                x: x as int,
                y: y as int,
                w: w as int,
                h: h as int,
                color,
                border_color,
                border_thickness: border_thickness as int,
            },
            DrawCommand::RoundedRect { x, y, w, h, radius, color, border_color, border_thickness } => CommandView::RoundedRect {
                x: x as int,
                y: y as int,
                w: w as int,
                h: h as int,
                radius: radius as int,
                color,
                border_color,
                border_thickness: border_thickness as int,
            },
            DrawCommand::ClippedRect { x, y, w, h, color, clip } => CommandView::ClippedRect {
                x: x as int,
                y: y as int,
                w: w as int,
                h: h as int,
                color,
                clip,
            },
            DrawCommand::Text { content, x, y, color, font } => CommandView::Text {
                content: content@,
                x: x as int,
                y: y as int,
                color,
                font,
            },
        }
    }
}

/// The mathematical values of a list of commands, in the same order.
pub open spec fn command_views(cmds: Seq<DrawCommand>) -> Seq<CommandView> {
    Seq::new(cmds.len(), |i: int| cmds[i]@)
}

/// What a button is filled with where it has no background of its own.
pub open spec fn button_idle() -> Color {
    Color { r: 64, g: 64, b: 89, a: 255 }
}

/// What a hovered button is filled with where it has no background of its
/// own.
pub open spec fn button_hovered() -> Color {
    Color { r: 89, g: 89, b: 115, a: 255 }
}

/// What a clicked button is filled with where it has no background of its
/// own.
pub open spec fn button_clicked() -> Color {
    Color { r: 128, g: 128, b: 153, a: 255 }
}

/// The colour of a button's label.
pub open spec fn button_label() -> Color {
    Color { r: 235, g: 235, b: 242, a: 255 }
}

/// By how much a hovered button is brighter than its background.
pub const HOVER_LIFT: u8 = 20;

/// By how much a clicked button is brighter than its background.
pub const CLICK_LIFT: u8 = 38;

/// A colour as it shows through a layer of the given opacity: the alpha
/// channel is scaled by `opacity / 255`, rounded down.
pub open spec fn faded(c: Color, opacity: u8) -> Color {
    Color { a: ((c.a as int * opacity as int) / 255) as u8, ..c }
}

/// A colour with red, green and blue raised by `amount`, stopping at 255,
/// and opaque.
pub open spec fn lifted(c: Color, amount: u8) -> Color {
    Color {
        r: (if c.r + amount > 255 { 255 } else { c.r + amount }) as u8,
        g: (if c.g + amount > 255 { 255 } else { c.g + amount }) as u8,
        b: (if c.b + amount > 255 { 255 } else { c.b + amount }) as u8,
        a: 255,
    }
}

/// What a button is filled with: its background, brighter while hovered and
/// brighter still in the frame of a click; the stock colours where it has
/// no background.
pub open spec fn button_fill(background: Option<Color>, hovered: bool, clicked: bool) -> Color {
    if hovered && clicked {
        match background {
            Some(c) => lifted(c, CLICK_LIFT),
            None => button_clicked(),
        }
    } else if hovered {
        match background {
            Some(c) => lifted(c, HOVER_LIFT),
            None => button_hovered(),
        }
    } else {
        match background {
            Some(c) => c,
            None => button_idle(),
        }
    }
}

/// The shadow of a node: none unless the shadow colour is visible and the
/// blur is positive.
pub open spec fn shadow_commands(n: NodeView) -> Seq<CommandView> {
    let s = n.style;
    if s.shadow_color.a > 0 && s.shadow_blur > 0 {
        seq![
            CommandView::Shadow {
                x: n.x,
                y: n.y,
                w: n.w,
                h: n.h,
                color: faded(s.shadow_color, s.opacity),
                radius: s.border_radius as int,
                blur: s.shadow_blur as int,
                offset_x: s.shadow_offset_x as int,
                offset_y: s.shadow_offset_y as int,
            },
        ]
    } else {
        Seq::empty()
    }
}

/// The filled shape of a node. Under a clip it is a plain clipped
/// rectangle, unless it has round corners and lies fully inside the clip.
/// Without a clip it has its border, and round corners where the radius is
/// positive.
pub open spec fn shape_command(n: NodeView, fill: Color, clip: Option<ClipRect>) -> CommandView {
    let s = n.style;
    let color = faded(fill, s.opacity);
    let border = faded(
        match s.border_color {
            Some(c) => c,
            None => Color { r: 0, g: 0, b: 0, a: 0 },
        },
        s.opacity,
    );
    let rounded = CommandView::RoundedRect {
        x: n.x,
        y: n.y,
        w: n.w,
        h: n.h,
        radius: s.border_radius as int,
        color,
        border_color: border,
        border_thickness: s.border_thickness as int,
    };
    match clip {
        Some(c) => if s.border_radius > 0 && !(n.x < c.x0 || n.y < c.y0 || n.x + n.w > c.x1 || n.y
            + n.h > c.y1) {
            rounded
        } else {
            CommandView::ClippedRect { x: n.x, y: n.y, w: n.w, h: n.h, color, clip: c }
        },
        None => if s.border_radius > 0 {
            rounded
        } else {
            CommandView::Rect {
                x: n.x,
                y: n.y,
                w: n.w,
                h: n.h,
                color,
                border_color: border,
                border_thickness: s.border_thickness as int,
            }
        },
    }
}

/// What is painted for a tree that is drawn with the given clip, in
/// painting order. `clicked` says whether the left button just went down.
///
/// A rectangle, a text or a button that lies fully outside the clip is left
/// out; a text counts as one unit wide and high for that. A rectangle is
/// its shadow and its shape, in its hover colour while hovered. A button is
/// its shadow, its shape and its label, centred. A container is its shadow,
/// its background where it has one, and then its children, drawn with the
/// clip that the container hands on.
pub open spec fn draw_spec(n: NodeView, clip: Option<ClipRect>, clicked: bool) -> Seq<CommandView>
    decreases n, 0int,
{
    match n.kind {
        KindView::Empty => Seq::empty(),
        KindView::Rect { color, hover_color, hovered, .. } => if outside_spec(n.x, n.y, n.w, n.h, clip) {
            Seq::empty()
        } else {
            shadow_commands(n).push(
                shape_command(
                    n,
                    match hover_color {
                        Some(c) => if hovered {
                            c
                        } else {
                            color
                        },
                        None => color,
                    },
                    clip,
                ),
            )
        },
        KindView::Text { content, color, font } => if outside_spec(n.x, n.y, 1, 1, clip) {
            Seq::empty()
        } else {
            seq![CommandView::Text { content, x: n.x, y: n.y, color, font }]
        },
        KindView::Button { label, label_w, label_h, hovered, .. } => if outside_spec(
            n.x,
            n.y,
            n.w,
            n.h,
            clip,
        ) {
            Seq::empty()
        } else {
            shadow_commands(n).push(
                shape_command(n, button_fill(n.style.background, hovered, clicked), clip),
            ).push(
                CommandView::Text {
                    content: label,
                    x: centered_spec(n.x, n.w, label_w as int),
                    y: centered_spec(n.y, n.h, label_h as int),
                    color: button_label(),
                    font: None,
                },
            )
        },
        KindView::Children(c) => {
            let own = match n.style.background {
                Some(bg) => shadow_commands(n).push(shape_command(n, bg, clip)),
                None => shadow_commands(n),
            };
            own + draw_kids(
                c,
                child_clip_spec(n.x, n.y, n.w, n.h, n.style.overflow, clip),
                clicked,
                c.len() as int,
            )
        },
    }
}

/// What is painted for the first `upto` children, one after the other.
pub open spec fn draw_kids(c: Seq<NodeView>, clip: Option<ClipRect>, clicked: bool, upto: int) -> Seq<
    CommandView,
>
    decreases c, upto,
{
    if upto <= 0 || upto > c.len() {
        Seq::empty()
    } else {
        draw_kids(c, clip, clicked, upto - 1) + draw_spec(c[upto - 1], clip, clicked)
    }
}

/// A list with one more command has one more view.
proof fn lemma_views_push(cmds: Seq<DrawCommand>, c: DrawCommand)
    ensures
        command_views(cmds.push(c)) == command_views(cmds).push(c@),
{
    assert(command_views(cmds.push(c)) =~= command_views(cmds).push(c@));
}

/// Appends one command.
fn emit(out: &mut Vec<DrawCommand>, c: DrawCommand)
    ensures
        command_views(final(out)@) == command_views(old(out)@).push(c@),
{
    proof {
        lemma_views_push(out@, c);
    }
    out.push(c);
}

/// Appends the shadow of a node, if it has one.
fn emit_shadow(out: &mut Vec<DrawCommand>, node: &LayoutNode)
    ensures
        command_views(final(out)@) == command_views(old(out)@) + shadow_commands(node@),
{
    proof {
        lemma_view_rect(*node);
    }
    let s = &node.style;
    let ghost before = command_views(out@);
    if s.shadow_color.a > 0 && s.shadow_blur > 0 {
        emit(
            out,
            DrawCommand::Shadow {
                x: node.x,
                y: node.y,
                w: node.w,
                h: node.h,
                color: s.shadow_color.with_opacity(s.opacity),
                radius: s.border_radius,
                blur: s.shadow_blur,
                offset_x: s.shadow_offset_x,
                offset_y: s.shadow_offset_y,
            },
        );
        assert(command_views(out@) =~= before + shadow_commands(node@));
    } else {
        assert(command_views(out@) =~= before + shadow_commands(node@));
    }
}

/// Appends the filled shape of a node.
fn emit_shape(out: &mut Vec<DrawCommand>, node: &LayoutNode, fill: Color, clip: Option<ClipRect>)
    ensures
        command_views(final(out)@) == command_views(old(out)@).push(shape_command(node@, fill, clip)),
{
    proof {
        lemma_view_rect(*node);
    }
    let s = &node.style;
    let color = fill.with_opacity(s.opacity);
    let border = match s.border_color {
        Some(c) => c.with_opacity(s.opacity),
        None => Color::transparent().with_opacity(s.opacity),
    };
    let plain: bool = match clip {
        Some(c) => !(s.border_radius > 0 && !(node.x < c.x0 || node.y < c.y0 || node.x as i64
            + node.w as i64 > c.x1 as i64 || node.y as i64 + node.h as i64 > c.y1 as i64)),
        None => false,
    };
    if plain {
        match clip {
            Some(c) => emit(
                out,
                DrawCommand::ClippedRect { x: node.x, y: node.y, w: node.w, h: node.h, color, clip: c },
            ),
            None => {},
        }
    } else if s.border_radius > 0 {
        emit(
            out,
            DrawCommand::RoundedRect {
                x: node.x,
                y: node.y,
                w: node.w,
                h: node.h,
                radius: s.border_radius,
                color,
                border_color: border,
                border_thickness: s.border_thickness,
            },
        );
    } else {
        emit(
            out,
            DrawCommand::Rect {
                x: node.x,
                y: node.y,
                w: node.w,
                h: node.h,
                color,
                border_color: border,
                border_thickness: s.border_thickness,
            },
        );
    }
}

/// What a button is filled with.
fn fill_of_button(background: Option<Color>, hovered: bool, clicked: bool) -> (c: Color)
    ensures
        c == button_fill(background, hovered, clicked),
{
    if hovered && clicked {
        match background {
            Some(c) => c.brightened(CLICK_LIFT),
            None => Color::rgb(128, 128, 153),
        }
    } else if hovered {
        match background {
            Some(c) => c.brightened(HOVER_LIFT),
            None => Color::rgb(89, 89, 115),
        }
    } else {
        match background {
            Some(c) => c,
            None => Color::rgb(64, 64, 89),
        }
    }
}

/// Appends what is painted for a tree.
fn draw_node(out: &mut Vec<DrawCommand>, node: &LayoutNode, clip: Option<ClipRect>, clicked: bool)
    ensures
        command_views(final(out)@) == command_views(old(out)@) + draw_spec(node@, clip, clicked),
    decreases node, 0int,
{
    proof {
        lemma_view_rect(*node);
        lemma_view_kind(*node);
    }
    let ghost before = command_views(out@);
    match &node.kind {
        LayoutKind::Empty => {
            assert(command_views(out@) =~= before + draw_spec(node@, clip, clicked));
        },
        LayoutKind::Rect { color, hover_color, hovered, .. } => {
            if !is_outside(node.x, node.y, node.w, node.h, clip) {
                emit_shadow(out, node);
                let fill = match hover_color {
                    Some(c) => if *hovered {
                        *c
                    } else {
                        *color
                    },
                    None => *color,
                };
                emit_shape(out, node, fill, clip);
            }
            assert(command_views(out@) =~= before + draw_spec(node@, clip, clicked));
        },
        LayoutKind::Text { content, color, font } => {
            if !is_outside(node.x, node.y, 1, 1, clip) {
                emit(
                    out,
                    DrawCommand::Text {
                        content: content.clone(),
                        x: node.x,
                        y: node.y,
                        color: *color,
                        font: *font,
                    },
                );
            }
            assert(command_views(out@) =~= before + draw_spec(node@, clip, clicked));
        },
        LayoutKind::Button { label, label_w, label_h, hovered, .. } => {
            if !is_outside(node.x, node.y, node.w, node.h, clip) {
                emit_shadow(out, node);
                emit_shape(out, node, fill_of_button(node.style.background, *hovered, clicked), clip);
                emit(
                    out,
                    DrawCommand::Text {
                        content: label.clone(),
                        x: centered(node.x, node.w, *label_w),
                        y: centered(node.y, node.h, *label_h),
                        color: Color::rgb(235, 235, 242),
                        font: None,
                    },
                );
            }
            assert(command_views(out@) =~= before + draw_spec(node@, clip, clicked));
        },
        LayoutKind::Children(nodes) => {
            emit_shadow(out, node);
            match node.style.background {
                Some(bg) => {
                    emit_shape(out, node, bg, clip);
                },
                None => {},
            }
            let inner = make_child_clip(node.x, node.y, node.w, node.h, node.style.overflow, clip);
            draw_nodes(out, nodes, inner, clicked);
            assert(command_views(out@) =~= before + draw_spec(node@, clip, clicked));
        },
    }
}

/// Appends what is painted for the trees of a list, one after the other.
fn draw_nodes(out: &mut Vec<DrawCommand>, nodes: &Vec<LayoutNode>, clip: Option<ClipRect>, clicked: bool)
    ensures
        command_views(final(out)@) == command_views(old(out)@) + draw_kids(
            views(nodes@),
            clip,
            clicked,
            nodes@.len() as int,
        ),
    decreases nodes, 1int,
{
    let ghost c = views(nodes@);
    let ghost before = command_views(out@);
    assert(command_views(out@) =~= before + draw_kids(c, clip, clicked, 0));
    let mut i: usize = 0;
    while i < nodes.len()
        invariant
            i <= nodes@.len(),
            c == views(nodes@),
            command_views(out@) == before + draw_kids(c, clip, clicked, i as int),
        decreases nodes@.len() - i,
    {
        proof {
            reveal_with_fuel(node_view, 1);
            assert(c[i as int] == nodes@[i as int]@);
        }
        draw_node(out, &nodes[i], clip, clicked);
        assert(command_views(out@) =~= before + (draw_kids(c, clip, clicked, i as int) + draw_spec(
            c[i as int],
            clip,
            clicked,
        )));
        i += 1;
    }
}

/// Lists what is to be painted for a laid-out tree, in painting order.
/// `clicked` says whether the left button just went down; the hover flags
/// of the tree say what the pointer is over.
pub fn draw(root: &LayoutNode, clicked: bool) -> (cmds: Vec<DrawCommand>)
    ensures
        command_views(cmds@) == draw_spec(root@, None, clicked),
{
    let mut out: Vec<DrawCommand> = Vec::new();
    draw_node(&mut out, root, None, clicked);
    assert(command_views(out@) =~= draw_spec(root@, None, clicked));
    out
}

/// As `draw`, with a clip that the whole tree is drawn with.
pub fn draw_clipped(root: &LayoutNode, clicked: bool, clip: Option<ClipRect>) -> (cmds: Vec<DrawCommand>)
    ensures
        command_views(cmds@) == draw_spec(root@, clip, clicked),
{
    let mut out: Vec<DrawCommand> = Vec::new();
    draw_node(&mut out, root, clip, clicked);
    assert(command_views(out@) =~= draw_spec(root@, clip, clicked));
    out
}

} // verus!
