//! Rendering of annotated source excerpts as aligned text.
//!
//! A report is a list of groups. Each group has a heading and, below it,
//! remarks, excerpts of source with annotations, suggested edits and places
//! in files. [`Renderer::render`] lays a report out as lines of text, with
//! underlines below the annotated source, brackets in the gutter for
//! annotations over several lines, and labels beside them.

pub mod annotate;
pub mod level;
pub mod margin;
pub mod renderer;
pub mod snippet;
pub mod source_map;
pub mod splice;
pub mod style;
pub mod styled_buffer;
pub mod text;

pub use level::{Level, LevelInner};
pub use renderer::{OutputTheme, Renderer, DEFAULT_TERM_WIDTH};
pub use snippet::{
    Annotation, AnnotationKind, Element, Group, Id, Message, Origin, Padding, Patch, Snippet, Span,
    Title,
};
pub use style::{AnsiColor, Effects, Style};
