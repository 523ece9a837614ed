//! Retained widgets: rectangles, texts and containers that the host makes
//! once and keeps, each with a place of its own. A container stacks its
//! children from its own origin, one after the other along its direction.

use vstd::prelude::*;
use crate::color::Color;
use crate::draw::{command_views, CommandView, DrawCommand};
use crate::events::{mouse_at_rest, Key, Keyboard, Mouse};
use crate::fonts::{FontId, Fonts};
use crate::style::ContainerDirection;
use crate::units::{max_i32, max_of, sat, sat_sub, saturate};

verus! {

/// A rectangle with an outline.
#[derive(Clone, Copy, Debug)]
pub struct Rect {
    pub id: u32,
    pub x: i32,
    pub y: i32,
    pub w: i32,
    pub h: i32,
    pub color: Color,
    pub outline_color: Color,
    pub outline_thickness: i32,
}

/// A text. `measured_w` and `measured_h` are the bounds of the shaped text,
/// as the host's text shaper gave them.
#[derive(Debug)]
pub struct Text {
    pub id: u32,
    pub text: String,
    pub font_id: FontId,
    pub x: i32,
    pub y: i32,
    pub color: Color,
    pub font_size: i32,
    pub font_family: String,
    pub measured_w: i32,
    pub measured_h: i32,
}

/// A retained widget.
#[derive(Debug)]
pub enum Widget {
    Rect(Rect),
    Text(Text),
    Container(Box<Container>),
}

/// A container: its own rectangle, and children that it stacks along its
/// direction with a gap after each.
#[derive(Debug)]
pub struct Container {
    pub id: u32,
    pub direction: ContainerDirection,
    pub x: i32,
    pub y: i32,
    pub w: i32,
    pub h: i32,
    pub gap: i32,
    pub children: Vec<Widget>,
}

/// The mathematical value of a `Text`.
pub struct TextView {
    pub id: u32,
    pub text: Seq<char>,
    pub font_id: FontId,
    pub x: i32,
    pub y: i32,
    pub color: Color,
    pub font_size: i32,
    pub font_family: Seq<char>,
    pub measured_w: i32,
    pub measured_h: i32,
}

/// The mathematical value of a `Container`.
pub struct ContainerView {
    pub id: u32,
    pub direction: ContainerDirection,
    pub x: i32,
    pub y: i32,
    pub w: i32,
    pub h: i32,
    pub gap: i32,
    pub children: Seq<WidgetView>,
}

/// The mathematical value of a `Widget`.
pub enum WidgetView {
    Rect(Rect),
    Text(TextView),
    Container(ContainerView),
}

/// The mathematical value of a text.
pub open spec fn text_view(t: Text) -> TextView {
    TextView {
        id: t.id,
        text: t.text@,
        font_id: t.font_id,
        x: t.x,
        y: t.y,
        color: t.color,
        font_size: t.font_size,
        font_family: t.font_family@,
        measured_w: t.measured_w,
        measured_h: t.measured_h,
    }
}

/// The mathematical value of a widget. It is opaque to the prover until
/// revealed.
#[verifier::opaque]
pub open spec fn widget_view(w: Widget) -> WidgetView
    decreases w,
{
    match w {
        Widget::Rect(r) => WidgetView::Rect(r),
        Widget::Text(t) => WidgetView::Text(text_view(t)),
        Widget::Container(c) => WidgetView::Container(
            ContainerView {
                id: c.id,
                direction: c.direction,
                x: c.x,
                y: c.y,
                w: c.w,
                h: c.h,
                gap: c.gap,
                children: widget_views(c.children@),
            },
        ),
    }
}

/// The mathematical values of a list of widgets, in the same order.
pub open spec fn widget_views(ws: Seq<Widget>) -> Seq<WidgetView>
    decreases ws,
{
    Seq::new(
        ws.len(),
        |i: int|
            if 0 <= i < ws.len() {
                widget_view(ws[i])
            } else {
                WidgetView::Rect(no_rect())
            },
    )
}

/// The mathematical value of a container.
pub open spec fn container_model(c: Container) -> ContainerView {
    ContainerView {
        id: c.id,
        direction: c.direction,
        x: c.x,
        y: c.y,
        w: c.w,
        h: c.h,
        gap: c.gap,
        children: widget_views(c.children@),
    }
}

/// A rectangle of no size at the origin.
pub open spec fn no_rect() -> Rect {
    Rect {
        id: 0,
        x: 0,
        y: 0,
        w: 0,
        h: 0,
        color: Color { r: 0, g: 0, b: 0, a: 0 },
        outline_color: Color { r: 0, g: 0, b: 0, a: 0 },
        outline_thickness: 0,
    }
}

/// The width and height that a widget takes in a container: a rectangle
/// and a container their own, a text its measured bounds.
pub open spec fn widget_size(w: WidgetView) -> (int, int) {
    match w {
        WidgetView::Rect(r) => (r.w as int, r.h as int),
        WidgetView::Text(t) => (t.measured_w as int, t.measured_h as int),
        WidgetView::Container(c) => (c.w as int, c.h as int),
    }
}

/// Of a width and a height, the one along a direction.
pub open spec fn along_dir(dir: ContainerDirection, size: (int, int)) -> int {
    match dir {
        ContainerDirection::Horizontal => size.0,
        ContainerDirection::Vertical => size.1,
    }
}

/// Where the child at position `upto` starts along the direction: `start`,
/// moved on by every child before it and the gap after each.
pub open spec fn stack_cursor(
    children: Seq<WidgetView>,
    dir: ContainerDirection,
    gap: int,
    start: int,
    upto: int,
) -> int
    decreases upto,
{
    if upto <= 0 || upto > children.len() {
        start
    } else {
        saturate(
            stack_cursor(children, dir, gap, start, upto - 1) + along_dir(
                dir,
                widget_size(children[upto - 1]),
            ) + gap,
        )
    }
}

/// A widget moved to `(x, y)`. A container takes its children along: they
/// are stacked anew from there.
pub open spec fn moved(w: WidgetView, x: int, y: int) -> WidgetView
    decreases w, 0int,
{
    match w {
        WidgetView::Rect(r) => WidgetView::Rect(Rect { x: x as i32, y: y as i32, ..r }),
        WidgetView::Text(t) => WidgetView::Text(TextView { x: x as i32, y: y as i32, ..t }),
        WidgetView::Container(c) => WidgetView::Container(
            ContainerView {
                x: x as i32,
                y: y as i32,
                children: stacked(c.children, c.direction, c.gap as int, x, y),
                ..c
            },
        ),
    }
}

/// The children of a container at `(x, y)`, stacked: the first starts at
/// the container's origin, every other one where the one before it ends
/// along the direction, plus the gap. Across the direction all start at the
/// container's origin.
pub open spec fn stacked(
    children: Seq<WidgetView>,
    dir: ContainerDirection,
    gap: int,
    x: int,
    y: int,
) -> Seq<WidgetView>
    decreases children, 1int,
{
    Seq::new(
        children.len(),
        |i: int|
            if 0 <= i < children.len() {
                match dir {
                    ContainerDirection::Horizontal => moved(
                        children[i],
                        stack_cursor(children, dir, gap, x, i),
                        y,
                    ),
                    ContainerDirection::Vertical => moved(
                        children[i],
                        x,
                        stack_cursor(children, dir, gap, y, i),
                    ),
                }
            } else {
                WidgetView::Rect(no_rect())
            },
    )
}

/// A widget laid out: a container stacks its children from where it is;
/// any other widget stays as it is.
pub open spec fn laid_out(w: WidgetView) -> WidgetView {
    match w {
        WidgetView::Container(c) => moved(w, c.x as int, c.y as int),
        other => other,
    }
}

/// The space that a container's children need: along its direction their
/// sum with a gap between two neighbours, across it the largest of them. A
/// container among them counts with what its own children need.
pub open spec fn needed(c: ContainerView) -> (int, int)
    decreases c, 2int,
{
    let sum = needed_sum(c.children, c.direction, c.gap as int, c.children.len() as int);
    let along = if sum > 0 {
        saturate(sum - c.gap)
    } else {
        sum
    };
    let across = needed_max(c.children, c.direction, c.children.len() as int);
    match c.direction {
        ContainerDirection::Horizontal => (along, across),
        ContainerDirection::Vertical => (across, along),
    }
}

/// The width and height that a child counts with in the space its
/// container needs.
pub open spec fn needed_by(w: WidgetView) -> (int, int)
    decreases w, 3int,
{
    match w {
        WidgetView::Container(c) => needed(c),
        other => widget_size(other),
    }
}

/// The sum, along the direction, of what the first `upto` children need and
/// a gap after each.
pub open spec fn needed_sum(children: Seq<WidgetView>, dir: ContainerDirection, gap: int, upto: int) -> int
    decreases children, upto,
{
    if upto <= 0 || upto > children.len() {
        0
    } else {
        saturate(
            needed_sum(children, dir, gap, upto - 1) + along_dir(dir, needed_by(children[upto - 1]))
                + gap,
        )
    }
}

/// The largest, across the direction, of what the first `upto` children
/// need, and at least zero.
pub open spec fn needed_max(children: Seq<WidgetView>, dir: ContainerDirection, upto: int) -> int
    decreases children, upto,
{
    if upto <= 0 || upto > children.len() {
        0
    } else {
        max_of(
            needed_max(children, dir, upto - 1),
            along_dir(dir.spec_cross(), needed_by(children[upto - 1])),
        )
    }
}

/// What a container is filled with when it is drawn.
pub open spec fn container_fill() -> Color {
    Color { r: 51, g: 51, b: 51, a: 77 }
}

/// What a container is outlined with when it is drawn.
pub open spec fn container_outline() -> Color {
    Color { r: 128, g: 128, b: 128, a: 128 }
}

/// What is painted for a widget: a rectangle with its outline, a text, or
/// a container's own rectangle and then its children.
pub open spec fn widget_commands(w: WidgetView) -> Seq<CommandView>
    decreases w, 0int,
{
    match w {
        WidgetView::Rect(r) => seq![
            CommandView::Rect {
                x: r.x as int,
                y: r.y as int,
                w: r.w as int,
                h: r.h as int,
                color: r.color,
                border_color: r.outline_color,
                border_thickness: r.outline_thickness as int,
            },
        ],
        WidgetView::Text(t) => seq![
            CommandView::Text {
                content: t.text,
                x: t.x as int,
                y: t.y as int,
                color: t.color,
                font: Some(t.font_id),
            },
        ],
        WidgetView::Container(c) => seq![
            CommandView::Rect {
                x: c.x as int,
                y: c.y as int,
                w: c.w as int,
                h: c.h as int,
                color: container_fill(),
                border_color: container_outline(),
                border_thickness: 1,
            },
        ] + widgets_commands(c.children, c.children.len() as int),
    }
}

/// What is painted for the first `upto` widgets of a list.
pub open spec fn widgets_commands(ws: Seq<WidgetView>, upto: int) -> Seq<CommandView>
    decreases ws, upto,
{
    if upto <= 0 || upto > ws.len() {
        Seq::empty()
    } else {
        widgets_commands(ws, upto - 1) + widget_commands(ws[upto - 1])
    }
}

/// The view of a widget, by its kind.
pub proof fn lemma_widget_view(w: Widget)
    ensures
        match w {
            Widget::Rect(r) => widget_view(w) == WidgetView::Rect(r),
            Widget::Text(t) => widget_view(w) == WidgetView::Text(text_view(t)),
            Widget::Container(c) => widget_view(w) == WidgetView::Container(container_model(*c)),
        },
{
    reveal_with_fuel(widget_view, 1);
}

/// The width and height that a widget takes in a container.
fn size_of(widget: &Widget) -> (r: (i32, i32))
    ensures
        (r.0 as int, r.1 as int) == widget_size(widget_view(*widget)),
{
    proof {
        lemma_widget_view(*widget);
    }
    match widget {
        Widget::Rect(r) => (r.w, r.h),
        Widget::Text(t) => (t.measured_w, t.measured_h),
        Widget::Container(c) => (c.w, c.h),
    }
}

/// Moves a widget to `(x, y)`; a container takes its children along.
fn move_to(widget: &mut Widget, x: i32, y: i32)
    ensures
        widget_view(*final(widget)) == moved(widget_view(*old(widget)), x as int, y as int),
    decreases *old(widget), 0int,
{
    proof {
        lemma_widget_view(*widget);
    }
    match widget {
        Widget::Rect(r) => {
            r.x = x;
            r.y = y;
        },
        Widget::Text(t) => {
            t.x = x;
            t.y = y;
        },
        Widget::Container(c) => {
            c.x = x;
            c.y = y;
            let dir = c.direction;
            let gap: i32 = c.gap;
            stack(&mut c.children, dir, gap, x, y);
        },
    }
    proof {
        lemma_widget_view(*widget);
    }
}

/// Stacks the children of a container at `(x, y)`.
fn stack(children: &mut Vec<Widget>, dir: ContainerDirection, gap: i32, x: i32, y: i32)
    ensures
        widget_views(final(children)@) == stacked(
            widget_views(old(children)@),
            dir,
            gap as int,
            x as int,
            y as int,
        ),
    decreases *old(children), 1int,
{
    let ghost before = widget_views(children@);
    let start: i32 = match dir {
        ContainerDirection::Horizontal => x,
        ContainerDirection::Vertical => y,
    };
    let mut cursor: i32 = start;
    let mut i: usize = 0;
    while i < children.len()
        invariant
            i <= children@.len(),
            children@.len() == old(children)@.len(),
            before == widget_views(old(children)@),
            start == match dir {
                ContainerDirection::Horizontal => x,
                ContainerDirection::Vertical => y,
            },
            cursor as int == stack_cursor(before, dir, gap as int, start as int, i as int),
            forall|j: int|
                0 <= j < i ==> widget_view(#[trigger] children@[j]) == stacked(
                    before,
                    dir,
                    gap as int,
                    x as int,
                    y as int,
                )[j],
            forall|j: int| i <= j < children@.len() ==> children@[j] == old(children)@[j],
        decreases children@.len() - i,
    {
        proof {
            reveal_with_fuel(widget_view, 1);
            assert(before[i as int] == widget_view(children@[i as int]));
        }
        let (w, h) = size_of(&children[i]);
        match dir {
            ContainerDirection::Horizontal => {
                move_to(&mut children[i], cursor, y);
                cursor = sat(cursor as i64 + w as i64 + gap as i64);
            },
            ContainerDirection::Vertical => {
                move_to(&mut children[i], x, cursor);
                cursor = sat(cursor as i64 + h as i64 + gap as i64);
            },
        }
        i += 1;
    }
    proof {
        reveal_with_fuel(widget_view, 1);
        assert(widget_views(children@) =~= stacked(before, dir, gap as int, x as int, y as int));
    }
}

/// Lays a widget out: a container puts its children where they belong,
/// nested containers too; any other widget stays as it is.
pub fn layout_widget(widget: &mut Widget)
    ensures
        widget_view(*final(widget)) == laid_out(widget_view(*old(widget))),
{
    proof {
        lemma_widget_view(*widget);
    }
    match widget {
        Widget::Container(c) => {
            let x: i32 = c.x;
            let y: i32 = c.y;
            move_to(widget, x, y);
        },
        _ => {},
    }
}

/// The width and height that the children of a container need.
pub fn measure_container(container: &Container) -> (r: (i32, i32))
    ensures
        (r.0 as int, r.1 as int) == needed(container_model(*container)),
    decreases container, 1int,
{
    let dir = container.direction;
    let (sum, across) = measure_widgets(&container.children, dir, container.gap);
    let along: i32 = if sum > 0 {
        sat_sub(sum, container.gap)
    } else {
        sum
    };
    match dir {
        ContainerDirection::Horizontal => (along, across),
        ContainerDirection::Vertical => (across, along),
    }
}

/// The sum along the direction, with a gap after each, and the largest
/// across it, of what the widgets of a list need.
fn measure_widgets(ws: &Vec<Widget>, dir: ContainerDirection, gap: i32) -> (r: (i32, i32))
    ensures
        r.0 as int == needed_sum(widget_views(ws@), dir, gap as int, ws@.len() as int),
        r.1 as int == needed_max(widget_views(ws@), dir, ws@.len() as int),
    decreases ws, 2int,
{
    let ghost views = widget_views(ws@);
    let mut sum: i32 = 0;
    let mut across: i32 = 0;
    let mut i: usize = 0;
    while i < ws.len()
        invariant
            i <= ws@.len(),
            views == widget_views(ws@),
            sum as int == needed_sum(views, dir, gap as int, i as int),
            across as int == needed_max(views, dir, i as int),
        decreases ws@.len() - i,
    {
        proof {
            reveal_with_fuel(widget_view, 1);
            assert(views[i as int] == widget_view(ws@[i as int]));
        }
        let (w, h) = measure_widget(&ws[i]);
        match dir {
            ContainerDirection::Horizontal => {
                sum = sat(sum as i64 + w as i64 + gap as i64);
                across = max_i32(across, h);
            },
            ContainerDirection::Vertical => {
                sum = sat(sum as i64 + h as i64 + gap as i64);
                across = max_i32(across, w);
            },
        }
        i += 1;
    }
    (sum, across)
}

/// The width and height that a widget counts with in its container.
fn measure_widget(widget: &Widget) -> (r: (i32, i32))
    ensures
        (r.0 as int, r.1 as int) == needed_by(widget_view(*widget)),
    decreases widget, 0int,
{
    proof {
        lemma_widget_view(*widget);
    }
    match widget {
        Widget::Container(c) => measure_container(c),
        _ => size_of(widget),
    }
}

/// Appends what is painted for a widget.
fn render_widget(out: &mut Vec<DrawCommand>, widget: &Widget)
    ensures
        command_views(final(out)@) == command_views(old(out)@) + widget_commands(
            widget_view(*widget),
        ),
    decreases widget, 0int,
{
    proof {
        lemma_widget_view(*widget);
    }
    let ghost before = command_views(out@);
    match widget {
        Widget::Rect(r) => {
            let c = DrawCommand::Rect {
                x: r.x,
                y: r.y,
                w: r.w,
                h: r.h,
                color: r.color,
                border_color: r.outline_color,
                border_thickness: r.outline_thickness,
            };
            out.push(c);
            assert(command_views(out@) =~= before + widget_commands(widget_view(*widget)));
        },
        Widget::Text(t) => {
            let c = DrawCommand::Text {
                content: t.text.clone(),
                x: t.x,
                y: t.y,
                color: t.color,
                font: Some(t.font_id),
            };
            out.push(c);
            assert(command_views(out@) =~= before + widget_commands(widget_view(*widget)));
        },
        Widget::Container(b) => {
            let c = DrawCommand::Rect {
                x: b.x,
                y: b.y,
                w: b.w,
                h: b.h,
                color: Color::rgba(51, 51, 51, 77),
                border_color: Color::rgba(128, 128, 128, 128),
                border_thickness: 1,
            };
            out.push(c);
            let ghost own = command_views(out@);
            assert(own =~= before + seq![c@]);
            render_all(out, &b.children);
            assert(command_views(out@) =~= before + widget_commands(widget_view(*widget)));
        },
    }
}

/// Appends what is painted for the widgets of a list, one after the other.
fn render_all(out: &mut Vec<DrawCommand>, ws: &Vec<Widget>)
    ensures
        command_views(final(out)@) == command_views(old(out)@) + widgets_commands(
            widget_views(ws@),
            ws@.len() as int,
        ),
    decreases ws, 1int,
{
    let ghost views = widget_views(ws@);
    let ghost before = command_views(out@);
    assert(command_views(out@) =~= before + widgets_commands(views, 0));
    let mut i: usize = 0;
    while i < ws.len()
        invariant
            i <= ws@.len(),
            views == widget_views(ws@),
            command_views(out@) == before + widgets_commands(views, i as int),
        decreases ws@.len() - i,
    {
        proof {
            reveal_with_fuel(widget_view, 1);
            assert(views[i as int] == widget_view(ws@[i as int]));
        }
        render_widget(out, &ws[i]);
        assert(command_views(out@) =~= before + (widgets_commands(views, i as int) + widget_commands(
            views[i as int],
        )));
        i += 1;
    }
}

/// What the host keeps between frames: the fonts, the input, the widgets,
/// and whether something changed since the widgets were last drawn.
pub struct Ctx {
    pub fonts: Fonts,
    pub mouse: Mouse,
    pub keyboard: Keyboard,
    pub exit: bool,
    pub root_widgets: Vec<Widget>,
    /// Whether something changed since the widgets were last drawn.
    pub dirty: bool,
    pub window_height: i32,
    pub window_width: i32,
}

/// The id that the next root widget gets: the number of root widgets, as
/// far as 32 bits hold it.
pub open spec fn next_id(count: int) -> u32 {
    (count % 0x1_0000_0000) as u32
}

impl Ctx {
    /// A context with the given fonts, no widgets, the pointer at rest, and
    /// nothing to redraw.
    pub fn new(fonts: Fonts) -> (c: Self)
        ensures
            c.fonts == fonts,
            c.mouse == mouse_at_rest(),
            c.keyboard.pressed@ == Seq::<Key>::empty(),
            c.keyboard.just_pressed@ == Seq::<Key>::empty(),
            c.keyboard.just_released@ == Seq::<Key>::empty(),
            !c.exit,
            c.root_widgets@ == Seq::<Widget>::empty(),
            !c.dirty,
            c.window_width == 0,
            c.window_height == 0,
    {
        Ctx {
            fonts,
            mouse: Mouse::default(),
            keyboard: Keyboard::default(),
            exit: false,
            root_widgets: Vec::new(),
            dirty: false,
            window_height: 0,
            window_width: 0,
        }
    }

    /// The window has a new size.
    pub fn resize(&mut self, width: i32, height: i32)
        ensures
            final(self).window_width == width,
            final(self).window_height == height,
            final(self).fonts == old(self).fonts,
            final(self).mouse == old(self).mouse,
            final(self).keyboard == old(self).keyboard,
            final(self).exit == old(self).exit,
            final(self).root_widgets == old(self).root_widgets,
            final(self).dirty == old(self).dirty,
    {
        self.window_width = width;
        self.window_height = height;
    }

    /// Asks the host to end after this frame.
    pub fn exit(&mut self)
        ensures
            final(self).exit,
            final(self).fonts == old(self).fonts,
            final(self).mouse == old(self).mouse,
            final(self).keyboard == old(self).keyboard,
            final(self).root_widgets == old(self).root_widgets,
            final(self).dirty == old(self).dirty,
            final(self).window_width == old(self).window_width,
            final(self).window_height == old(self).window_height,
    {
        self.exit = true;
    }

    /// Says that the widgets have to be drawn again.
    pub fn mark_dirty(&mut self)
        ensures
            final(self).dirty,
            final(self).fonts == old(self).fonts,
            final(self).mouse == old(self).mouse,
            final(self).keyboard == old(self).keyboard,
            final(self).exit == old(self).exit,
            final(self).root_widgets == old(self).root_widgets,
            final(self).window_width == old(self).window_width,
            final(self).window_height == old(self).window_height,
    {
        self.dirty = true;
    }

    /// Whether the widgets have to be drawn again; after the call they no
    /// longer have to.
    pub fn take_dirty(&mut self) -> (d: bool)
        ensures
            d == old(self).dirty,
            !final(self).dirty,
            final(self).fonts == old(self).fonts,
            final(self).mouse == old(self).mouse,
            final(self).keyboard == old(self).keyboard,
            final(self).exit == old(self).exit,
            final(self).root_widgets == old(self).root_widgets,
            final(self).window_width == old(self).window_width,
            final(self).window_height == old(self).window_height,
    {
        let d = self.dirty;
        self.dirty = false;
        d
    }

    fn id_for_next(&self) -> (id: u32)
        ensures
            id == next_id(self.root_widgets@.len() as int),
    {
        ((self.root_widgets.len() as u64) % 0x1_0000_0000u64) as u32
    }

    fn add(&mut self, widget: Widget)
        ensures
            final(self).root_widgets@ == old(self).root_widgets@.push(widget),
            final(self).dirty,
            final(self).fonts == old(self).fonts,
            final(self).mouse == old(self).mouse,
            final(self).keyboard == old(self).keyboard,
            final(self).exit == old(self).exit,
            final(self).window_width == old(self).window_width,
            final(self).window_height == old(self).window_height,
    {
        self.root_widgets.push(widget);
        self.dirty = true;
    }

    fn container(
        &self,
        direction: ContainerDirection,
        x: i32,
        y: i32,
        w: i32,
        h: i32,
        gap: i32,
        children: Vec<Widget>,
    ) -> (c: Widget)
        ensures
            c == Widget::Container(
                Box::new(
                    Container {
                        id: next_id(self.root_widgets@.len() as int),
                        direction,
                        x,
                        y,
                        w,
                        h,
                        gap,
                        children,
                    },
                ),
            ),
    {
        Widget::Container(Box::new(Container { id: self.id_for_next(), direction, x, y, w, h, gap, children }))
    }

    /// Adds a container that stacks its children from top to bottom. The
    /// widgets have to be drawn again.
    pub fn vcontainer(&mut self, x: i32, y: i32, w: i32, h: i32, gap: i32, children: Vec<Widget>)
        ensures
            final(self).root_widgets@ == old(self).root_widgets@.push(
                Widget::Container(
                    Box::new(
                        Container {
                            id: next_id(old(self).root_widgets@.len() as int),
                            direction: ContainerDirection::Vertical,
                            x,
                            y,
                            w,
                            h,
                            gap,
                            children,
                        },
                    ),
                ),
            ),
            final(self).dirty,
            final(self).fonts == old(self).fonts,
            final(self).mouse == old(self).mouse,
            final(self).keyboard == old(self).keyboard,
            final(self).exit == old(self).exit,
            final(self).window_width == old(self).window_width,
            final(self).window_height == old(self).window_height,
    {
        let c = self.container(ContainerDirection::Vertical, x, y, w, h, gap, children);
        self.add(c);
    }

    /// Adds a container that stacks its children from left to right. The
    /// widgets have to be drawn again.
    pub fn hcontainer(&mut self, x: i32, y: i32, w: i32, h: i32, gap: i32, children: Vec<Widget>)
        ensures
            final(self).root_widgets@ == old(self).root_widgets@.push(
                Widget::Container(
                    Box::new(
                        Container {
                            id: next_id(old(self).root_widgets@.len() as int),
                            direction: ContainerDirection::Horizontal,
                            x,
                            y,
                            w,
                            h,
                            gap,
                            children,
                        },
                    ),
                ),
            ),
            final(self).dirty,
            final(self).fonts == old(self).fonts,
            final(self).mouse == old(self).mouse,
            final(self).keyboard == old(self).keyboard,
            final(self).exit == old(self).exit,
            final(self).window_width == old(self).window_width,
            final(self).window_height == old(self).window_height,
    {
        let c = self.container(ContainerDirection::Horizontal, x, y, w, h, gap, children);
        self.add(c);
    }

    /// Adds a rectangle. The widgets have to be drawn again.
    pub fn rect(
        &mut self,
        x: i32,
        y: i32,
        w: i32,
        h: i32,
        color: Color,
        outline_color: Color,
        outline_thickness: i32,
    )
        ensures
            final(self).root_widgets@ == old(self).root_widgets@.push(
                Widget::Rect(
                    Rect {
                        id: next_id(old(self).root_widgets@.len() as int),
                        x,
                        y,
                        w,
                        h,
                        color,
                        outline_color,
                        outline_thickness,
                    },
                ),
            ),
            final(self).dirty,
            final(self).fonts == old(self).fonts,
            final(self).mouse == old(self).mouse,
            final(self).keyboard == old(self).keyboard,
            final(self).exit == old(self).exit,
            final(self).window_width == old(self).window_width,
            final(self).window_height == old(self).window_height,
    {
        let r = Rect { id: self.id_for_next(), x, y, w, h, color, outline_color, outline_thickness };
        self.add(Widget::Rect(r));
    }

    /// Adds a text in a registered font, with the family and the size of
    /// that font, not yet measured. The widgets have to be drawn again.
    pub fn text(&mut self, text: &str, font_id: FontId, x: i32, y: i32, color: Color)
        requires
            old(self).fonts.wf(),
            font_id.0 < old(self).fonts.count(),
        ensures
            final(self).root_widgets@.len() == old(self).root_widgets@.len() + 1,
            forall|j: int|
                0 <= j < old(self).root_widgets@.len() ==> final(self).root_widgets@[j] == old(
                    self,
                ).root_widgets@[j],
            widget_view(final(self).root_widgets@[old(self).root_widgets@.len() as int])
                == WidgetView::Text(
                TextView {
                    id: next_id(old(self).root_widgets@.len() as int),
                    text: text@,
                    font_id,
                    x,
                    y,
                    color,
                    font_size: old(self).fonts.entry(font_id.0 as int).size,
                    font_family: old(self).fonts.entry(font_id.0 as int).family@,
                    measured_w: 0,
                    measured_h: 0,
                },
            ),
            final(self).dirty,
            final(self).fonts == old(self).fonts,
            final(self).mouse == old(self).mouse,
            final(self).keyboard == old(self).keyboard,
            final(self).exit == old(self).exit,
            final(self).window_width == old(self).window_width,
            final(self).window_height == old(self).window_height,
    {
        let entry = self.fonts.get(font_id);
        let t = Text {
            id: self.id_for_next(),
            text: text.to_owned(),
            font_id,
            x,
            y,
            color,
            font_size: entry.size,
            font_family: entry.family.clone(),
            measured_w: 0,
            measured_h: 0,
        };
        let w = Widget::Text(t);
        proof {
            lemma_widget_view(w);
        }
        self.add(w);
    }

    /// Lays out every root widget.
    pub fn layout(&mut self)
        ensures
            final(self).root_widgets@.len() == old(self).root_widgets@.len(),
            forall|j: int|
                0 <= j < old(self).root_widgets@.len() ==> widget_view(
                    #[trigger] final(self).root_widgets@[j],
                ) == laid_out(widget_view(old(self).root_widgets@[j])),
            final(self).dirty == old(self).dirty,
            final(self).fonts == old(self).fonts,
            final(self).mouse == old(self).mouse,
            final(self).keyboard == old(self).keyboard,
            final(self).exit == old(self).exit,
            final(self).window_width == old(self).window_width,
            final(self).window_height == old(self).window_height,
    {
        let mut i: usize = 0;
        while i < self.root_widgets.len()
            invariant
                i <= self.root_widgets@.len(),
                self.root_widgets@.len() == old(self).root_widgets@.len(),
                forall|j: int|
                    0 <= j < i ==> widget_view(#[trigger] self.root_widgets@[j]) == laid_out(
                        widget_view(old(self).root_widgets@[j]),
                    ),
                forall|j: int|
                    i <= j < self.root_widgets@.len() ==> self.root_widgets@[j] == old(
                        self,
                    ).root_widgets@[j],
                self.dirty == old(self).dirty,
                self.fonts == old(self).fonts,
                self.mouse == old(self).mouse,
                self.keyboard == old(self).keyboard,
                self.exit == old(self).exit,
                self.window_width == old(self).window_width,
                self.window_height == old(self).window_height,
            decreases self.root_widgets@.len() - i,
        {
            layout_widget(&mut self.root_widgets[i]);
            i += 1;
        }
    }

    /// Lists what is to be painted for the root widgets, in their order.
    pub fn render_widgets(&self) -> (cmds: Vec<DrawCommand>)
        ensures
            command_views(cmds@) == widgets_commands(
                widget_views(self.root_widgets@),
                self.root_widgets@.len() as int,
            ),
    {
        let mut out: Vec<DrawCommand> = Vec::new();
        render_all(&mut out, &self.root_widgets);
        assert(command_views(out@) =~= widgets_commands(
            widget_views(self.root_widgets@),
            self.root_widgets@.len() as int,
        ));
        out
    }
}

} // verus!
