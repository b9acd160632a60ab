//! Terminal styles and the table that gives each part of a report its style.

use crate::level::LevelInner;
use vstd::prelude::*;

verus! {

/// The sixteen colours of the ANSI palette, in palette order.
#[derive(Clone, Copy, Debug, PartialEq, Eq, Structural)]
pub enum AnsiColor {
    Black,
    Red,
    Green,
    Yellow,
    Blue,
    Magenta,
    Cyan,
    White,
    BrightBlack,
    BrightRed,
    BrightGreen,
    BrightYellow,
    BrightBlue,
    BrightMagenta,
    BrightCyan,
    BrightWhite,
}

/// Text effects that can be switched on together with a colour.
#[derive(Clone, Copy, Debug, PartialEq, Eq, Structural)]
pub struct Effects {
    pub bold: bool,
    pub dimmed: bool,
    pub italic: bool,
    pub underline: bool,
}

/// How a run of text is shown on a terminal.
#[derive(Clone, Copy, Debug)]
pub struct Style {
    pub fg: Option<AnsiColor>,
    pub bg: Option<AnsiColor>,
    pub effects: Effects,
}

impl Effects {
    /// No effect.
    pub open spec fn none() -> Effects {
        Effects { bold: false, dimmed: false, italic: false, underline: false }
    }

    /// No effect.
    pub fn new() -> (e: Effects)
        ensures
            e == Effects::none(),
    {
        Effects { bold: false, dimmed: false, italic: false, underline: false }
    }

    /// Only bold.
    pub fn bold() -> (e: Effects)
        ensures
            e == (Effects { bold: true, dimmed: false, italic: false, underline: false }),
    {
        Effects { bold: true, dimmed: false, italic: false, underline: false }
    }

    /// No effect is switched on.
    pub open spec fn is_plain(self) -> bool {
        !self.bold && !self.dimmed && !self.italic && !self.underline
    }
}

impl AnsiColor {
    /// This colour on the terminal's own background, with no effect.
    pub fn on_default(self) -> (s: Style)
        ensures
            s == (Style { fg: Some(self), bg: None, effects: Effects::none() }),
    {
        Style { fg: Some(self), bg: None, effects: Effects::new() }
    }
}

impl Style {
    /// The style that changes nothing.
    pub fn new() -> (s: Style)
        ensures
            s == (Style { fg: None, bg: None, effects: Effects::none() }),
            s.is_plain(),
    {
        Style { fg: None, bg: None, effects: Effects::new() }
    }

    /// Sets the colour of the text.
    pub fn fg_color(self, fg: Option<AnsiColor>) -> (s: Style)
        ensures
            s == (Style { fg, ..self }),
    {
        Style { fg, bg: self.bg, effects: self.effects }
    }

    /// Sets the colour of the background.
    pub fn bg_color(self, bg: Option<AnsiColor>) -> (s: Style)
        ensures
            s == (Style { bg, ..self }),
    {
        Style { fg: self.fg, bg, effects: self.effects }
    }

    /// Replaces the effects of the style.
    pub fn effects(self, effects: Effects) -> (s: Style)
        ensures
            s == (Style { effects, ..self }),
    {
        Style { fg: self.fg, bg: self.bg, effects }
    }

    /// Nothing is set: text in this style needs no escape code before it and
    /// no reset after it.
    pub open spec fn is_plain(self) -> bool {
        self.fg is None && self.bg is None && self.effects.is_plain()
    }

    /// Whether two styles are the same.
    pub fn same(&self, other: &Style) -> (r: bool)
        ensures
            r == (*self == *other),
    {
        let fg = match (self.fg, other.fg) {
            (Some(a), Some(b)) => a == b,
            (None, None) => true,
            _ => false,
        };
        let bg = match (self.bg, other.bg) {
            (Some(a), Some(b)) => a == b,
            (None, None) => true,
            _ => false,
        };
        fg && bg && self.effects == other.effects
    }

    /// The escape codes that switch this style on.
    pub fn render(&self) -> (out: String)
        ensures
            out@ == ansi_codes(*self),
            self.is_plain() ==> out@.len() == 0,
    {
        style_codes(self)
    }

    /// The escape code that switches this style off again.
    pub fn render_reset(&self) -> (out: String)
        ensures
            out@ == reset_codes(*self),
    {
        style_reset(self)
    }
}

/// What `anstyle::Style::render` writes for the style that has the
/// colours and effects of `style`.
pub uninterp spec fn ansi_codes(style: Style) -> Seq<char>;

/// The reset code, `ESC [ 0 m`, for every style but the plain one.
pub open spec fn reset_codes(style: Style) -> Seq<char> {
    if style.is_plain() {
        Seq::empty()
    } else {
        seq!['\u{1b}', '[', '0', 'm']
    }
}

/// Builds the `anstyle::Style` with the same colours and effects and returns
/// what its `render` displays. That text depends on the style alone; for a
/// style with no colour and no effect `anstyle` writes nothing.
#[verifier::external_body]
fn style_codes(style: &Style) -> (out: String)
    ensures
        out@ == ansi_codes(*style),
        style.is_plain() ==> out@.len() == 0,
{
    let color = |c: AnsiColor| anstyle::Ansi256Color(c as u8).into_ansi().map(anstyle::Color::Ansi);
    let effects = anstyle::Effects::new()
        .set(anstyle::Effects::BOLD, style.effects.bold)
        .set(anstyle::Effects::DIMMED, style.effects.dimmed)
        .set(anstyle::Effects::ITALIC, style.effects.italic)
        .set(anstyle::Effects::UNDERLINE, style.effects.underline);
    let outside = anstyle::Style::new().effects(effects);
    outside.fg_color(style.fg.and_then(color)).bg_color(style.bg.and_then(color)).render().to_string()
}

/// Builds the `anstyle::Style` with the same colours and effects and returns
/// what its `render_reset` displays: the reset code `ESC [ 0 m`, or nothing
/// where the style equals `anstyle::Style::new()`.
#[verifier::external_body]
fn style_reset(style: &Style) -> (out: String)
    ensures
        out@ == reset_codes(*style),
{
    let color = |c: AnsiColor| anstyle::Ansi256Color(c as u8).into_ansi().map(anstyle::Color::Ansi);
    let effects = anstyle::Effects::new()
        .set(anstyle::Effects::BOLD, style.effects.bold)
        .set(anstyle::Effects::DIMMED, style.effects.dimmed)
        .set(anstyle::Effects::ITALIC, style.effects.italic)
        .set(anstyle::Effects::UNDERLINE, style.effects.underline);
    let outside = anstyle::Style::new().effects(effects);
    outside.fg_color(style.fg.and_then(color)).bg_color(style.bg.and_then(color)).render_reset().to_string()
}

/// The style of each part of a report.
#[derive(Clone, Copy, Debug)]
pub struct Stylesheet {
    pub error: Style,
    pub warning: Style,
    pub info: Style,
    pub note: Style,
    pub help: Style,
    pub line_num: Style,
    pub emphasis: Style,
    pub none: Style,
    pub context: Style,
    pub addition: Style,
    pub removal: Style,
}

impl Stylesheet {
    /// Every part in the plain style.
    pub open spec fn plain_spec() -> Stylesheet {
        let p = Style { fg: None, bg: None, effects: Effects { bold: false, dimmed: false, italic: false, underline: false } };
        Stylesheet {
            error: p,
            warning: p,
            info: p,
            note: p,
            help: p,
            line_num: p,
            emphasis: p,
            none: p,
            context: p,
            addition: p,
            removal: p,
        }
    }

    /// Every part in the plain style.
    pub fn plain() -> (s: Stylesheet)
        ensures
            s == Stylesheet::plain_spec(),
    {
        let p = Style::new();
        Stylesheet {
            error: p,
            warning: p,
            info: p,
            note: p,
            help: p,
            line_num: p,
            emphasis: p,
            none: p,
            context: p,
            addition: p,
            removal: p,
        }
    }

    /// The default colours. `legacy_console` selects the palette for consoles
    /// on which the ordinary blue and yellow are hard to read.
    pub open spec fn styled_spec(legacy_console: bool) -> Stylesheet {
        let bold = Effects { bold: true, dimmed: false, italic: false, underline: false };
        let none = Effects { bold: false, dimmed: false, italic: false, underline: false };
        let blue = Style {
            fg: Some(
                if legacy_console {
                    AnsiColor::BrightCyan
                } else {
                    AnsiColor::BrightBlue
                },
            ),
            bg: None,
            effects: bold,
        };
        Stylesheet {
            error: Style { fg: Some(AnsiColor::BrightRed), bg: None, effects: bold },
            warning: Style {
                fg: Some(
                    if legacy_console {
                        AnsiColor::BrightYellow
                    } else {
                        AnsiColor::Yellow
                    },
                ),
                bg: None,
                effects: bold,
            },
            info: blue,
            note: Style { fg: Some(AnsiColor::BrightGreen), bg: None, effects: bold },
            help: Style { fg: Some(AnsiColor::BrightCyan), bg: None, effects: bold },
            line_num: blue,
            emphasis: Style {
                fg: if legacy_console {
                    Some(AnsiColor::BrightWhite)
                } else {
                    None
                },
                bg: None,
                effects: bold,
            },
            none: Style { fg: None, bg: None, effects: none },
            context: blue,
            addition: Style { fg: Some(AnsiColor::BrightGreen), bg: None, effects: none },
            removal: Style { fg: Some(AnsiColor::BrightRed), bg: None, effects: none },
        }
    }

    /// The default colours; see [`Stylesheet::styled_spec`].
    pub fn styled(legacy_console: bool) -> (s: Stylesheet)
        ensures
            s == Stylesheet::styled_spec(legacy_console),
    {
        let blue = if legacy_console {
            AnsiColor::BrightCyan.on_default()
        } else {
            AnsiColor::BrightBlue.on_default()
        }.effects(Effects::bold());
        Stylesheet {
            error: AnsiColor::BrightRed.on_default().effects(Effects::bold()),
            warning: if legacy_console {
                AnsiColor::BrightYellow.on_default()
            } else {
                AnsiColor::Yellow.on_default()
            }.effects(Effects::bold()),
            info: blue,
            note: AnsiColor::BrightGreen.on_default().effects(Effects::bold()),
            help: AnsiColor::BrightCyan.on_default().effects(Effects::bold()),
            line_num: blue,
            emphasis: if legacy_console {
                AnsiColor::BrightWhite.on_default()
            } else {
                Style::new()
            }.effects(Effects::bold()),
            none: Style::new(),
            context: blue,
            addition: AnsiColor::BrightGreen.on_default(),
            removal: AnsiColor::BrightRed.on_default(),
        }
    }
}

/// The part of a report that a cell of the canvas belongs to.
#[derive(Clone, Copy, Debug, PartialEq, Eq, Structural)]
pub enum ElementStyle {
    MainHeaderMsg,
    HeaderMsg,
    LineAndColumn,
    LineNumber,
    Quotation,
    UnderlinePrimary,
    UnderlineSecondary,
    LabelPrimary,
    LabelSecondary,
    NoStyle,
    Level(LevelInner),
    Addition,
    Removal,
}

impl LevelInner {
    /// The style that the sheet gives to this severity.
    pub open spec fn style_spec(self, stylesheet: Stylesheet) -> Style {
        match self {
            LevelInner::Error => stylesheet.error,
            LevelInner::Warning => stylesheet.warning,
            LevelInner::Info => stylesheet.info,
            LevelInner::Note => stylesheet.note,
            LevelInner::Help => stylesheet.help,
        }
    }

    /// The style that the sheet gives to this severity.
    pub fn style(self, stylesheet: &Stylesheet) -> (s: Style)
        ensures
            s == self.style_spec(*stylesheet),
    {
        match self {
            LevelInner::Error => stylesheet.error,
            LevelInner::Warning => stylesheet.warning,
            LevelInner::Info => stylesheet.info,
            LevelInner::Note => stylesheet.note,
            LevelInner::Help => stylesheet.help,
        }
    }
}

impl ElementStyle {
    /// The style of a cell: primary underlines and labels take the style of
    /// the report's severity, secondary ones the context style.
    pub open spec fn color_spec_of(self, level: LevelInner, stylesheet: Stylesheet) -> Style {
        match self {
            ElementStyle::Addition => stylesheet.addition,
            ElementStyle::Removal => stylesheet.removal,
            ElementStyle::LineAndColumn => stylesheet.none,
            ElementStyle::LineNumber => stylesheet.line_num,
            ElementStyle::Quotation => stylesheet.none,
            ElementStyle::MainHeaderMsg => stylesheet.emphasis,
            ElementStyle::UnderlinePrimary | ElementStyle::LabelPrimary => level.style_spec(
                stylesheet,
            ),
            ElementStyle::UnderlineSecondary | ElementStyle::LabelSecondary => stylesheet.context,
            ElementStyle::HeaderMsg | ElementStyle::NoStyle => stylesheet.none,
            ElementStyle::Level(lvl) => lvl.style_spec(stylesheet),
        }
    }

    /// The style of a cell; see [`ElementStyle::color_spec_of`].
    pub fn color_spec(&self, level: LevelInner, stylesheet: &Stylesheet) -> (s: Style)
        ensures
            s == self.color_spec_of(level, *stylesheet),
    {
        match self {
            ElementStyle::Addition => stylesheet.addition,
            ElementStyle::Removal => stylesheet.removal,
            ElementStyle::LineAndColumn => stylesheet.none,
            ElementStyle::LineNumber => stylesheet.line_num,
            ElementStyle::Quotation => stylesheet.none,
            ElementStyle::MainHeaderMsg => stylesheet.emphasis,
            ElementStyle::UnderlinePrimary | ElementStyle::LabelPrimary => level.style(stylesheet),
            ElementStyle::UnderlineSecondary | ElementStyle::LabelSecondary => stylesheet.context,
            ElementStyle::HeaderMsg | ElementStyle::NoStyle => stylesheet.none,
            ElementStyle::Level(lvl) => lvl.style(stylesheet),
        }
    }
}

} // verus!
