//! A declarative UI layout and interaction engine.
//!
//! The caller describes a widget tree every frame: rectangles, texts,
//! buttons, rows and columns, each with a style. The library
//!
//! - measures the tree bottom-up ([`measure`]),
//! - resolves it top-down into absolute rectangles ([`layout`]),
//! - finds what the pointer is over and which registered actions are due
//!   ([`dispatch`]),
//! - and lists what is to be painted, leaving out what the containers that
//!   hide their overflow clip away ([`draw`]).
//!
//! Besides the tree that is rebuilt every frame there are retained widgets
//! with places of their own, which containers stack ([`ctx`]).
//!
//! Lengths are whole layout units and arithmetic saturates ([`units`]). The
//! tree holds no closures: an element carries the ids of the actions that
//! the host registered, and the dispatch hands back the ids that are due.
//! Shaping text is the host's work; a text element carries the bounds that
//! the host measured.

pub mod clip;
pub mod color;
pub mod ctx;
pub mod dispatch;
pub mod draw;
pub mod element;
pub mod events;
pub mod flow;
pub mod fonts;
pub mod laws;
pub mod layout;
pub mod measure;
pub mod node;
pub mod size;
pub mod style;
pub mod units;

pub use clip::{intersect, is_outside, make_child_clip, ClipRect};
pub use color::Color;
pub use ctx::{Container, Ctx, Widget};
pub use dispatch::{dispatch, mark_hovered, Intent, IntentKind};
pub use draw::{draw, draw_clipped, DrawCommand};
pub use element::{button, empty, rect, row, text, ActionId, Callbacks, Element};
pub use events::{Events, Key, Keyboard, Mouse, MouseButton};
pub use fonts::{FontBuilder, FontEntry, FontId, Fonts, MeasureCache};
pub use layout::{arrange, layout, place};
pub use measure::measure;
pub use node::{LayoutKind, LayoutNode};
pub use size::{Align, Size};
pub use style::{ContainerDirection, Edges, Overflow, Padding, Position, Style};
