//! The element tree: what the caller describes every frame.

use vstd::prelude::*;
use crate::color::Color;
use crate::fonts::FontId;
use crate::size::{Align, Size};
use crate::style::{default_style, Edges, Overflow, Position, Style};

verus! {

/// The name a host gives to something it wants done. The library hands it
/// back when the pointer does what the action was registered for.
pub type ActionId = u32;

/// The actions registered on an interactive node.
#[derive(Clone, Copy, PartialEq, Eq, Debug)]
pub struct Callbacks {
    /// Every frame while the pointer is over the node.
    pub on_hover: Option<ActionId>,
    /// In the first frame in which the pointer is over the node.
    pub on_just_hovered: Option<ActionId>,
    /// In the first frame in which the pointer is no longer over the node.
    pub on_just_unhovered: Option<ActionId>,
    /// When the left button goes down while the pointer is over the node.
    pub on_click: Option<ActionId>,
}

/// No action registered.
pub open spec fn no_callbacks() -> Callbacks {
    Callbacks { on_hover: None, on_just_hovered: None, on_just_unhovered: None, on_click: None }
}

impl Default for Callbacks {
    fn default() -> (c: Self)
        ensures
            c == no_callbacks(),
    {
        Callbacks { on_hover: None, on_just_hovered: None, on_just_unhovered: None, on_click: None }
    }
}

/// What a button adds to the width of its label when its width is natural.
pub const BUTTON_PAD_W: i32 = 24;

/// What a button adds to the height of its label when its height is natural.
pub const BUTTON_PAD_H: i32 = 12;

/// A node of the element tree.
pub enum Element {
    /// Nothing: no size, no style.
    Empty,
    /// A filled rectangle.
    Rect { color: Color, hover_color: Option<Color>, style: Style, callbacks: Callbacks },
    /// A run of text. `measured_w` and `measured_h` are the bounds of the
    /// shaped text, as the host's text shaper gave them. A text is always
    /// `measured_h` high: the height request and the height clamps of its
    /// style are not read.
    Text {
        content: String,
        color: Color,
        font: Option<FontId>,
        measured_w: i32,
        measured_h: i32,
        style: Style,
    },
    /// A button. `label_w` and `label_h` are the bounds of the shaped label.
    Button { label: String, label_w: i32, label_h: i32, style: Style, callbacks: Callbacks },
    /// Children side by side, from left to right.
    Row { style: Style, children: Vec<Element> },
    /// Children one below the other.
    Column { style: Style, children: Vec<Element> },
}

impl Element {
    /// The style of the element; that of an empty element is the default.
    pub open spec fn spec_style(&self) -> Style {
        match self {
            Element::Empty => default_style(),
            Element::Rect { style, .. } => *style,
            Element::Text { style, .. } => *style,
            Element::Button { style, .. } => *style,
            Element::Row { style, .. } => *style,
            Element::Column { style, .. } => *style,
        }
    }

    /// The children of a row or column; no other element has any.
    pub open spec fn spec_children(&self) -> Seq<Element> {
        match self {
            Element::Row { children, .. } => children@,
            Element::Column { children, .. } => children@,
            _ => Seq::empty(),
        }
    }

    /// The actions registered on a rectangle or a button; no other element
    /// has any.
    pub open spec fn spec_callbacks(&self) -> Callbacks {
        match self {
            Element::Rect { callbacks, .. } => *callbacks,
            Element::Button { callbacks, .. } => *callbacks,
            _ => no_callbacks(),
        }
    }

    /// The same element with another style. An empty element has none and
    /// stays as it is.
    pub open spec fn restyled(self, s: Style) -> Element {
        match self {
            Element::Empty => Element::Empty,
            Element::Rect { color, hover_color, style, callbacks } => Element::Rect {
                color,
                hover_color,
                style: s,
                callbacks,
            },
            Element::Text { content, color, font, measured_w, measured_h, style } => Element::Text {
                content,
                color,
                font,
                measured_w,
                measured_h,
                style: s,
            },
            Element::Button { label, label_w, label_h, style, callbacks } => Element::Button {
                label,
                label_w,
                label_h,
                style: s,
                callbacks,
            },
            Element::Row { style, children } => Element::Row { style: s, children },
            Element::Column { style, children } => Element::Column { style: s, children },
        }
    }

    /// The same element with other actions. Only a rectangle or a button
    /// takes them.
    pub open spec fn with_callbacks(self, c: Callbacks) -> Element {
        match self {
            Element::Rect { color, hover_color, style, callbacks } => Element::Rect {
                color,
                hover_color,
                style,
                callbacks: c,
            },
            Element::Button { label, label_w, label_h, style, callbacks } => Element::Button {
                label,
                label_w,
                label_h,
                style,
                callbacks: c,
            },
            other => other,
        }
    }

    /// The style of the element; that of an empty element is the default.
    #[verifier::when_used_as_spec(spec_style)]
    pub fn style(&self) -> (s: Style)
        ensures
            s == self.spec_style(),
    {
        match self {
            Element::Empty => Style::default(),
            Element::Rect { style, .. } => *style,
            Element::Text { style, .. } => *style,
            Element::Button { style, .. } => *style,
            Element::Row { style, .. } => *style,
            Element::Column { style, .. } => *style,
        }
    }

    /// The actions registered on the element.
    #[verifier::when_used_as_spec(spec_callbacks)]
    pub fn callbacks(&self) -> (c: Callbacks)
        ensures
            c == self.spec_callbacks(),
    {
        match self {
            Element::Rect { callbacks, .. } => *callbacks,
            Element::Button { callbacks, .. } => *callbacks,
            _ => Callbacks::default(),
        }
    }

    /// Replaces the style. An empty element has none and stays as it is.
    pub fn with_style(self, s: Style) -> (r: Self)
        ensures
            r == self.restyled(s),
    {
        match self {
            Element::Empty => Element::Empty,
            Element::Rect { color, hover_color, style: _, callbacks } => Element::Rect {
                color,
                hover_color,
                style: s,
                callbacks,
            },
            Element::Text { content, color, font, measured_w, measured_h, style: _ } => Element::Text {
                content,
                color,
                font,
                measured_w,
                measured_h,
                style: s,
            },
            Element::Button { label, label_w, label_h, style: _, callbacks } => Element::Button {
                label,
                label_w,
                label_h,
                style: s,
                callbacks,
            },
            Element::Row { style: _, children } => Element::Row { style: s, children },
            Element::Column { style: _, children } => Element::Column { style: s, children },
        }
    }

    fn set_callbacks(self, c: Callbacks) -> (r: Self)
        ensures
            r == self.with_callbacks(c),
    {
        match self {
            Element::Rect { color, hover_color, style, callbacks: _ } => Element::Rect {
                color,
                hover_color,
                style,
                callbacks: c,
            },
            Element::Button { label, label_w, label_h, style, callbacks: _ } => Element::Button {
                label,
                label_w,
                label_h,
                style,
                callbacks: c,
            },
            other => other,
        }
    }

    /// Sets the width request. An empty element has no style and stays as it is.
    pub fn width(self, v: Size) -> (r: Self)
        ensures
            r == self.restyled(Style { width: v, ..self.spec_style() }),
    {
        let mut s: Style = self.style();
        s.width = v;
        self.with_style(s)
    }

    /// Sets the height request. An empty element has no style and stays as it is.
    pub fn height(self, v: Size) -> (r: Self)
        ensures
            r == self.restyled(Style { height: v, ..self.spec_style() }),
    {
        let mut s: Style = self.style();
        s.height = v;
        self.with_style(s)
    }

    /// Sets the least width. An empty element has no style and stays as it is.
    pub fn min_width(self, v: i32) -> (r: Self)
        ensures
            r == self.restyled(Style { min_width: Some(v), ..self.spec_style() }),
    {
        let mut s: Style = self.style();
        s.min_width = Some(v);
        self.with_style(s)
    }

    /// Sets the greatest width. An empty element has no style and stays as it is.
    pub fn max_width(self, v: i32) -> (r: Self)
        ensures
            r == self.restyled(Style { max_width: Some(v), ..self.spec_style() }),
    {
        let mut s: Style = self.style();
        s.max_width = Some(v);
        self.with_style(s)
    }

    /// Sets the least height. An empty element has no style and stays as it is.
    pub fn min_height(self, v: i32) -> (r: Self)
        ensures
            r == self.restyled(Style { min_height: Some(v), ..self.spec_style() }),
    {
        let mut s: Style = self.style();
        s.min_height = Some(v);
        self.with_style(s)
    }

    /// Sets the greatest height. An empty element has no style and stays as it is.
    pub fn max_height(self, v: i32) -> (r: Self)
        ensures
            r == self.restyled(Style { max_height: Some(v), ..self.spec_style() }),
    {
        let mut s: Style = self.style();
        s.max_height = Some(v);
        self.with_style(s)
    }

    /// Sets the grow weight. An empty element has no style and stays as it is.
    pub fn grow(self, v: u32) -> (r: Self)
        ensures
            r == self.restyled(Style { grow: v, ..self.spec_style() }),
    {
        let mut s: Style = self.style();
        s.grow = v;
        self.with_style(s)
    }

    /// Sets the shrink weight. An empty element has no style and stays as it is.
    pub fn shrink(self, v: u32) -> (r: Self)
        ensures
            r == self.restyled(Style { shrink: Some(v), ..self.spec_style() }),
    {
        let mut s: Style = self.style();
        s.shrink = Some(v);
        self.with_style(s)
    }

    /// Sets how the children are placed along the x axis. An empty element has no style and stays as it is.
    pub fn align_x(self, a: Align) -> (r: Self)
        ensures
            r == self.restyled(Style { align_x: a, ..self.spec_style() }),
    {
        let mut s: Style = self.style();
        s.align_x = a;
        self.with_style(s)
    }

    /// Sets how the children are placed along the y axis. An empty element has no style and stays as it is.
    pub fn align_y(self, a: Align) -> (r: Self)
        ensures
            r == self.restyled(Style { align_y: a, ..self.spec_style() }),
    {
        let mut s: Style = self.style();
        s.align_y = a;
        self.with_style(s)
    }

    /// Overrides the container's cross-axis alignment for this node. An empty element has no style and stays as it is.
    pub fn align_self(self, a: Align) -> (r: Self)
        ensures
            r == self.restyled(Style { align_self: Some(a), ..self.spec_style() }),
    {
        let mut s: Style = self.style();
        s.align_self = Some(a);
        self.with_style(s)
    }

    /// Sets the padding. An empty element has no style and stays as it is.
    pub fn padding(self, e: Edges) -> (r: Self)
        ensures
            r == self.restyled(Style { padding: e, ..self.spec_style() }),
    {
        let mut s: Style = self.style();
        s.padding = e;
        self.with_style(s)
    }

    /// Sets the margin. An empty element has no style and stays as it is.
    pub fn margin(self, e: Edges) -> (r: Self)
        ensures
            r == self.restyled(Style { margin: e, ..self.spec_style() }),
    {
        let mut s: Style = self.style();
        s.margin = e;
        self.with_style(s)
    }

    /// Sets the space between neighbouring children. An empty element has no style and stays as it is.
    pub fn gap(self, v: i32) -> (r: Self)
        ensures
            r == self.restyled(Style { gap: v, ..self.spec_style() }),
    {
        let mut s: Style = self.style();
        s.gap = v;
        self.with_style(s)
    }

    /// Takes the node out of the flow: it is placed by its inset. An empty element has no style and stays as it is.
    pub fn absolute(self) -> (r: Self)
        ensures
            r == self.restyled(Style { position: Position::Absolute, ..self.spec_style() }),
    {
        let mut s: Style = self.style();
        s.position = Position::Absolute;
        self.with_style(s)
    }

    /// Sets the inset of an absolute node. An empty element has no style and stays as it is.
    pub fn inset(self, e: Edges) -> (r: Self)
        ensures
            r == self.restyled(Style { inset: e, ..self.spec_style() }),
    {
        let mut s: Style = self.style();
        s.inset = e;
        self.with_style(s)
    }

    /// Sets the background colour. An empty element has no style and stays as it is.
    pub fn background(self, color: Color) -> (r: Self)
        ensures
            r == self.restyled(Style { background: Some(color), ..self.spec_style() }),
    {
        let mut s: Style = self.style();
        s.background = Some(color);
        self.with_style(s)
    }

    /// Sets the corner radius. An empty element has no style and stays as it is.
    pub fn border_radius(self, v: i32) -> (r: Self)
        ensures
            r == self.restyled(Style { border_radius: v, ..self.spec_style() }),
    {
        let mut s: Style = self.style();
        s.border_radius = v;
        self.with_style(s)
    }

    /// Sets the border colour and thickness. An empty element has no style and stays as it is.
    pub fn border(self, color: Color, thickness: i32) -> (r: Self)
        ensures
            r == self.restyled(Style { border_color: Some(color), border_thickness: thickness, ..self.spec_style() }),
    {
        let mut s: Style = self.style();
        s.border_color = Some(color);
        s.border_thickness = thickness;
        self.with_style(s)
    }

    /// Sets the opacity, from 0 to 255. An empty element has no style and stays as it is.
    pub fn opacity(self, v: u8) -> (r: Self)
        ensures
            r == self.restyled(Style { opacity: v, ..self.spec_style() }),
    {
        let mut s: Style = self.style();
        s.opacity = v;
        self.with_style(s)
    }

    /// Sets the shadow. An empty element has no style and stays as it is.
    pub fn shadow(self, color: Color, offset_x: i32, offset_y: i32, blur: i32) -> (r: Self)
        ensures
            r == self.restyled(Style { shadow_color: color, shadow_offset_x: offset_x, shadow_offset_y: offset_y, shadow_blur: blur, ..self.spec_style() }),
    {
        let mut s: Style = self.style();
        s.shadow_color = color;
        s.shadow_offset_x = offset_x;
        s.shadow_offset_y = offset_y;
        s.shadow_blur = blur;
        self.with_style(s)
    }

    /// Clips the children to the node's rectangle. An empty element has no style and stays as it is.
    pub fn overflow_hidden(self) -> (r: Self)
        ensures
            r == self.restyled(Style { overflow: Overflow::Hidden, ..self.spec_style() }),
    {
        let mut s: Style = self.style();
        s.overflow = Overflow::Hidden;
        self.with_style(s)
    }

    /// Clips the children to the node's rectangle and lets the content scroll. An empty element has no style and stays as it is.
    pub fn overflow_scroll(self) -> (r: Self)
        ensures
            r == self.restyled(Style { overflow: Overflow::Scroll, ..self.spec_style() }),
    {
        let mut s: Style = self.style();
        s.overflow = Overflow::Scroll;
        self.with_style(s)
    }

    /// Sets the font of a text. Any other element stays as it is.
    pub fn font(self, font_: FontId) -> (r: Self)
        ensures
            r == match self {
                Element::Text { content, color, font, measured_w, measured_h, style } => Element::Text {
                    content,
                    color,
                    font: Some(font_),
                    measured_w,
                    measured_h,
                    style,
                },
                other => other,
            },
    {
        match self {
            Element::Text { content, color, font: _, measured_w, measured_h, style } => Element::Text {
                content,
                color,
                font: Some(font_),
                measured_w,
                measured_h,
                style,
            },
            other => other,
        }
    }

    /// Records the bounds of the shaped text of a text, or of the shaped
    /// label of a button. Any other element stays as it is.
    pub fn measured(self, w: i32, h: i32) -> (r: Self)
        ensures
            r == match self {
                Element::Text { content, color, font, measured_w, measured_h, style } => Element::Text {
                    content,
                    color,
                    font,
                    measured_w: w,
                    measured_h: h,
                    style,
                },
                Element::Button { label, label_w, label_h, style, callbacks } => Element::Button {
                    label,
                    label_w: w,
                    label_h: h,
                    style,
                    callbacks,
                },
                other => other,
            },
    {
        match self {
            Element::Text { content, color, font, measured_w: _, measured_h: _, style } => Element::Text {
                content,
                color,
                font,
                measured_w: w,
                measured_h: h,
                style,
            },
            Element::Button { label, label_w: _, label_h: _, style, callbacks } => Element::Button {
                label,
                label_w: w,
                label_h: h,
                style,
                callbacks,
            },
            other => other,
        }
    }

    /// Sets the colour of a rectangle while the pointer is over it. Any
    /// other element stays as it is.
    pub fn hover_color(self, c: Color) -> (r: Self)
        ensures
            r == match self {
                Element::Rect { color, hover_color, style, callbacks } => Element::Rect {
                    color,
                    hover_color: Some(c),
                    style,
                    callbacks,
                },
                other => other,
            },
    {
        match self {
            Element::Rect { color, hover_color: _, style, callbacks } => Element::Rect {
                color,
                hover_color: Some(c),
                style,
                callbacks,
            },
            other => other,
        }
    }

    /// Registers the action for a click. Only a rectangle or a button takes
    /// it.
    pub fn on_click(self, action: ActionId) -> (r: Self)
        ensures
            r == self.with_callbacks(Callbacks { on_click: Some(action), ..self.spec_callbacks() }),
    {
        let mut c: Callbacks = self.callbacks();
        c.on_click = Some(action);
        self.set_callbacks(c)
    }

    /// Registers the action for every frame in which the pointer is over
    /// the node. Only a rectangle or a button takes it.
    pub fn on_hover(self, action: ActionId) -> (r: Self)
        ensures
            r == self.with_callbacks(Callbacks { on_hover: Some(action), ..self.spec_callbacks() }),
    {
        let mut c: Callbacks = self.callbacks();
        c.on_hover = Some(action);
        self.set_callbacks(c)
    }

    /// Registers the action for the frame in which the pointer comes over
    /// the node. Only a rectangle or a button takes it.
    pub fn on_just_hovered(self, action: ActionId) -> (r: Self)
        ensures
            r == self.with_callbacks(
                Callbacks { on_just_hovered: Some(action), ..self.spec_callbacks() },
            ),
    {
        let mut c: Callbacks = self.callbacks();
        c.on_just_hovered = Some(action);
        self.set_callbacks(c)
    }

    /// Registers the action for the frame in which the pointer leaves the
    /// node. Only a rectangle or a button takes it.
    pub fn on_just_unhovered(self, action: ActionId) -> (r: Self)
        ensures
            r == self.with_callbacks(
                Callbacks { on_just_unhovered: Some(action), ..self.spec_callbacks() },
            ),
    {
        let mut c: Callbacks = self.callbacks();
        c.on_just_unhovered = Some(action);
        self.set_callbacks(c)
    }
}

/// An empty element.
pub fn empty() -> (e: Element)
    ensures
        e == Element::Empty,
{
    Element::Empty
}

/// A rectangle of the given colour, with the default style.
pub fn rect(color: Color) -> (e: Element)
    ensures
        e == (Element::Rect { color, hover_color: None, style: default_style(), callbacks: no_callbacks() }),
{
    Element::Rect { color, hover_color: None, style: Style::default(), callbacks: Callbacks::default() }
}

/// A text in the default font, not yet measured, with the default style.
pub fn text(content: &str, color: Color) -> (e: Element)
    ensures
        e matches Element::Text { content: c, color: col, font, measured_w, measured_h, style }
            && c@ == content@ && col == color && font is None && measured_w == 0 && measured_h == 0
            && style == default_style(),
{
    Element::Text {
        content: content.to_owned(),
        color,
        font: None,
        measured_w: 0,
        measured_h: 0,
        style: Style::default(),
    }
}

/// A button with the given label, not yet measured, with the default style
/// and no action.
pub fn button(label: &str) -> (e: Element)
    ensures
        e matches Element::Button { label: l, label_w, label_h, style, callbacks } && l@ == label@
            && label_w == 0 && label_h == 0 && style == default_style() && callbacks
            == no_callbacks(),
{
    Element::Button {
        label: label.to_owned(),
        label_w: 0,
        label_h: 0,
        style: Style::default(),
        callbacks: Callbacks::default(),
    }
}

/// A row of the given children, with the default style.
pub fn row(children: Vec<Element>) -> (e: Element)
    ensures
        e == (Element::Row { style: default_style(), children }),
{
    Element::Row { style: Style::default(), children }
}

/// A column of the given children, with the default style.
pub fn column(children: Vec<Element>) -> (e: Element)
    ensures
        e == (Element::Column { style: default_style(), children }),
{
    Element::Column { style: Style::default(), children }
}

} // verus!
