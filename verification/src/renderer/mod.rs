//! The renderer: lays a report out on a canvas and flattens it to text.

pub mod excerpt;
pub mod glyphs;
pub mod line_annotation;
pub mod order;
pub mod placement;
pub mod report;
pub mod source_line;
pub mod strokes;
pub mod suggestion;
pub mod title;

pub use crate::text::{char_width, str_width};

use crate::style::{Style, Stylesheet};
use vstd::prelude::*;

verus! {

/// What a line number is replaced by when line numbers are anonymized.
pub open spec fn anonymized_line_num() -> Seq<char> {
    seq!['L', 'L']
}

/// Width of the terminal where none is set.
pub const DEFAULT_TERM_WIDTH: usize = 140;

/// The characters that lines, corners and markers are drawn with.
#[derive(Clone, Copy, Debug, PartialEq, Eq, Structural)]
pub enum OutputTheme {
    /// Characters of ASCII only.
    Ascii,
    /// Box-drawing characters.
    Unicode,
}

/// Renders reports, as configured.
#[derive(Clone, Copy, Debug)]
pub struct Renderer {
    pub anonymized_line_numbers: bool,
    pub term_width: usize,
    pub theme: OutputTheme,
    pub stylesheet: Stylesheet,
    pub short_message: bool,
}

impl Renderer {
    /// The renderer without colours: ASCII, 140 columns, line numbers as they are.
    pub open spec fn plain_spec() -> Renderer {
        Renderer {
            anonymized_line_numbers: false,
            term_width: DEFAULT_TERM_WIDTH,
            theme: OutputTheme::Ascii,
            stylesheet: Stylesheet::plain_spec(),
            short_message: false,
        }
    }

    /// No terminal styling.
    pub fn plain() -> (r: Renderer)
        ensures
            r == Renderer::plain_spec(),
    {
        Renderer {
            anonymized_line_numbers: false,
            term_width: DEFAULT_TERM_WIDTH,
            theme: OutputTheme::Ascii,
            stylesheet: Stylesheet::plain(),
            short_message: false,
        }
    }

    /// Default terminal styling.
    pub fn styled() -> (r: Renderer)
        ensures
            r == (Renderer { stylesheet: Stylesheet::styled_spec(false), ..Renderer::plain_spec() }),
    {
        Renderer::styled_for(false)
    }

    /// Default terminal styling; with `legacy_console`, in the colours that
    /// stay readable on a console that shows blue and yellow too dark.
    pub fn styled_for(legacy_console: bool) -> (r: Renderer)
        ensures
            r == (Renderer {
                stylesheet: Stylesheet::styled_spec(legacy_console),
                ..Renderer::plain_spec()
            }),
    {
        Renderer {
            anonymized_line_numbers: false,
            term_width: DEFAULT_TERM_WIDTH,
            theme: OutputTheme::Ascii,
            stylesheet: Stylesheet::styled(legacy_console),
            short_message: false,
        }
    }

    /// Shows `LL` in place of every line number.
    pub fn anonymized_line_numbers(self, anonymized_line_numbers: bool) -> (r: Renderer)
        ensures
            r == (Renderer { anonymized_line_numbers, ..self }),
    {
        Renderer {
            anonymized_line_numbers,
            term_width: self.term_width,
            theme: self.theme,
            stylesheet: self.stylesheet,
            short_message: self.short_message,
        }
    }

    /// Renders a report on one line: place, level, title and primary labels.
    pub fn short_message(self, short_message: bool) -> (r: Renderer)
        ensures
            r == (Renderer { short_message, ..self }),
    {
        Renderer {
            anonymized_line_numbers: self.anonymized_line_numbers,
            term_width: self.term_width,
            theme: self.theme,
            stylesheet: self.stylesheet,
            short_message,
        }
    }

    /// Sets the width of the terminal.
    pub fn term_width(self, term_width: usize) -> (r: Renderer)
        ensures
            r == (Renderer { term_width, ..self }),
    {
        Renderer {
            anonymized_line_numbers: self.anonymized_line_numbers,
            term_width,
            theme: self.theme,
            stylesheet: self.stylesheet,
            short_message: self.short_message,
        }
    }

    /// Sets the characters to draw with.
    pub fn theme(self, output_theme: OutputTheme) -> (r: Renderer)
        ensures
            r == (Renderer { theme: output_theme, ..self }),
    {
        Renderer {
            anonymized_line_numbers: self.anonymized_line_numbers,
            term_width: self.term_width,
            theme: output_theme,
            stylesheet: self.stylesheet,
            short_message: self.short_message,
        }
    }

    /// The renderer with another sheet of styles.
    fn with_stylesheet(self, stylesheet: Stylesheet) -> (r: Renderer)
        ensures
            r == (Renderer { stylesheet, ..self }),
    {
        Renderer {
            anonymized_line_numbers: self.anonymized_line_numbers,
            term_width: self.term_width,
            theme: self.theme,
            stylesheet,
            short_message: self.short_message,
        }
    }

    /// Sets the style of errors.
    pub fn error(self, style: Style) -> (r: Renderer)
        ensures
            r == (Renderer { stylesheet: Stylesheet { error: style, ..self.stylesheet }, ..self }),
    {
        let mut sheet = self.stylesheet;
        sheet.error = style;
        self.with_stylesheet(sheet)
    }

    /// Sets the style of warnings.
    pub fn warning(self, style: Style) -> (r: Renderer)
        ensures
            r == (Renderer { stylesheet: Stylesheet { warning: style, ..self.stylesheet }, ..self }),
    {
        let mut sheet = self.stylesheet;
        sheet.warning = style;
        self.with_stylesheet(sheet)
    }

    /// Sets the style of informational remarks.
    pub fn info(self, style: Style) -> (r: Renderer)
        ensures
            r == (Renderer { stylesheet: Stylesheet { info: style, ..self.stylesheet }, ..self }),
    {
        let mut sheet = self.stylesheet;
        sheet.info = style;
        self.with_stylesheet(sheet)
    }

    /// Sets the style of notes.
    pub fn note(self, style: Style) -> (r: Renderer)
        ensures
            r == (Renderer { stylesheet: Stylesheet { note: style, ..self.stylesheet }, ..self }),
    {
        let mut sheet = self.stylesheet;
        sheet.note = style;
        self.with_stylesheet(sheet)
    }

    /// Sets the style of hints.
    pub fn help(self, style: Style) -> (r: Renderer)
        ensures
            r == (Renderer { stylesheet: Stylesheet { help: style, ..self.stylesheet }, ..self }),
    {
        let mut sheet = self.stylesheet;
        sheet.help = style;
        self.with_stylesheet(sheet)
    }

    /// Sets the style of line numbers and of the gutter.
    pub fn line_num(self, style: Style) -> (r: Renderer)
        ensures
            r == (Renderer { stylesheet: Stylesheet { line_num: style, ..self.stylesheet }, ..self }),
    {
        let mut sheet = self.stylesheet;
        sheet.line_num = style;
        self.with_stylesheet(sheet)
    }

    /// Sets the style of the main heading.
    pub fn emphasis(self, style: Style) -> (r: Renderer)
        ensures
            r == (Renderer { stylesheet: Stylesheet { emphasis: style, ..self.stylesheet }, ..self }),
    {
        let mut sheet = self.stylesheet;
        sheet.emphasis = style;
        self.with_stylesheet(sheet)
    }

    /// Sets the style of text that has no style of its own.
    pub fn none(self, style: Style) -> (r: Renderer)
        ensures
            r == (Renderer { stylesheet: Stylesheet { none: style, ..self.stylesheet }, ..self }),
    {
        let mut sheet = self.stylesheet;
        sheet.none = style;
        self.with_stylesheet(sheet)
    }

    /// Sets the style of annotations that give context.
    pub fn context(self, style: Style) -> (r: Renderer)
        ensures
            r == (Renderer { stylesheet: Stylesheet { context: style, ..self.stylesheet }, ..self }),
    {
        let mut sheet = self.stylesheet;
        sheet.context = style;
        self.with_stylesheet(sheet)
    }

    /// Sets the style of text that a suggestion adds.
    pub fn addition(self, style: Style) -> (r: Renderer)
        ensures
            r == (Renderer { stylesheet: Stylesheet { addition: style, ..self.stylesheet }, ..self }),
    {
        let mut sheet = self.stylesheet;
        sheet.addition = style;
        self.with_stylesheet(sheet)
    }

    /// Sets the style of text that a suggestion removes.
    pub fn removal(self, style: Style) -> (r: Renderer)
        ensures
            r == (Renderer { stylesheet: Stylesheet { removal: style, ..self.stylesheet }, ..self }),
    {
        let mut sheet = self.stylesheet;
        sheet.removal = style;
        self.with_stylesheet(sheet)
    }
}

} // verus!
