//! Headings, remarks and pointers into files.

use crate::level::LevelInner;
use crate::renderer::glyphs::{
    decimal, decimal_chars, file_start_of, note_separator_of, repeated, secondary_file_start_of,
};
use crate::renderer::{OutputTheme, Renderer};
use crate::snippet::{Message, Title};
use crate::style::ElementStyle;
use crate::styled_buffer::{append_spec, prepend_spec, putc_spec, puts_spec, Rows, StyledBuffer};
use crate::text::{
    byte_count, byte_len, chars_of, find_char, find_from, normalize_whitespace,
    normalized, saturate, slice_of,
};
use vstd::prelude::*;

verus! {

/// Where in a report a heading stands.
#[derive(Clone, Copy, Debug, PartialEq, Eq, Structural)]
pub enum TitleStyle {
    /// The heading of the first group.
    MainHeader,
    /// The heading of a later group.
    Header,
    /// A remark below a heading.
    Secondary,
}

/// What is shown of a heading or a remark.
#[derive(Debug)]
pub struct Heading {
    pub level: LevelInner,
    /// The name of the level; `None` where the level is shown without a name.
    pub name: Option<Vec<char>>,
    /// The code of the report.
    pub id: Option<Vec<char>>,
    /// The address that the code links to.
    pub url: Option<Vec<char>>,
    pub text: Vec<char>,
    /// Whether the text is shown as it is, in no style of the renderer's.
    pub pre_styled: bool,
}

/// What a heading holds.
pub struct HeadingView {
    pub level: LevelInner,
    pub name: Option<Seq<char>>,
    pub id: Option<Seq<char>>,
    pub url: Option<Seq<char>>,
    pub text: Seq<char>,
    pub pre_styled: bool,
}

/// The text that `text` holds, if any.
pub open spec fn text_of(text: Option<Vec<char>>) -> Option<Seq<char>> {
    match text {
        Some(t) => Some(t@),
        None => None,
    }
}

/// The text that `text` holds, if any.
pub open spec fn string_of(text: Option<String>) -> Option<Seq<char>> {
    match text {
        Some(t) => Some(t@),
        None => None,
    }
}

impl View for Heading {
    type V = HeadingView;

    open spec fn view(&self) -> HeadingView {
        HeadingView {
            level: self.level,
            name: text_of(self.name),
            id: text_of(self.id),
            url: text_of(self.url),
            text: self.text@,
            pre_styled: self.pre_styled,
        }
    }
}

impl crate::level::Level {
    /// The name the level is shown under, if it is shown with one.
    pub open spec fn shown_name(&self) -> Option<Seq<char>> {
        if self.has_name() {
            Some(self.label())
        } else {
            None
        }
    }
}

impl Title {
    /// What is shown of the title: its level, its code with the address
    /// that the code links to, and its text, which the renderer styles.
    pub open spec fn heading_view(&self) -> HeadingView {
        HeadingView {
            level: self.level.level,
            name: self.level.shown_name(),
            id: match self.id {
                Some(i) => string_of(i.id),
                None => None,
            },
            url: match self.id {
                Some(i) => if i.id is Some {
                    string_of(i.url)
                } else {
                    None
                },
                None => None,
            },
            text: self.text@,
            pre_styled: false,
        }
    }

    /// What is shown of the title.
    pub fn heading(&self) -> (h: Heading)
        ensures
            h@ == self.heading_view(),
    {
        let name = if self.level.is_named() {
            Some(chars_of(self.level.as_str()))
        } else {
            None
        };
        let (id, url) = match &self.id {
            Some(i) => match &i.id {
                Some(code) => (
                    Some(chars_of(code.as_str())),
                    match &i.url {
                        Some(u) => Some(chars_of(u.as_str())),
                        None => None,
                    },
                ),
                None => (None, None),
            },
            None => (None, None),
        };
        Heading {
            level: self.level.level,
            name,
            id,
            url,
            text: chars_of(self.text.as_str()),
            pre_styled: false,
        }
    }
}

impl Message {
    /// What is shown of the remark: its level and its text, as it is.
    pub open spec fn heading_view(&self) -> HeadingView {
        HeadingView {
            level: self.level.level,
            name: self.level.shown_name(),
            id: None,
            url: None,
            text: self.text@,
            pre_styled: true,
        }
    }

    /// What is shown of it, with its texts as characters.
    pub fn heading(&self) -> (h: Heading)
        ensures
            h@ == self.heading_view(),
    {
        let name = if self.level.is_named() {
            Some(chars_of(self.level.as_str()))
        } else {
            None
        };
        Heading {
            level: self.level.level,
            name,
            id: None,
            url: None,
            text: chars_of(self.text.as_str()),
            pre_styled: true,
        }
    }
}

/// The text that opens a link to `url` on a terminal.
pub open spec fn link_start(url: Seq<char>) -> Seq<char> {
    seq!['\u{1b}', ']', '8', ';', ';'] + url + seq!['\u{1b}', '\\']
}

/// The text that closes a link on a terminal.
pub open spec fn link_end() -> Seq<char> {
    seq!['\u{1b}', ']', '8', ';', ';', '\u{1b}', '\\']
}

/// A place in a file as text: the path, then the line and the column where known.
pub open spec fn origin_text(path: Seq<char>, line: Option<usize>, char_column: Option<usize>) -> Seq<
    char,
> {
    match (line, char_column) {
        (Some(l), Some(c)) => path + seq![':'] + decimal(l as nat) + seq![':'] + decimal(c as nat),
        (Some(l), None) => path + seq![':'] + decimal(l as nat),
        _ => path,
    }
}

impl HeadingView {
    /// Bytes that the level's name, the code in brackets and the colon take.
    pub open spec fn label_width(&self) -> usize {
        match self.name {
            Some(name) => {
                let named = saturate(byte_len(name) as int);
                let coded = match self.id {
                    Some(id) => named.saturating_add(2usize.saturating_add(saturate(byte_len(id) as int))),
                    None => named,
                };
                coded.saturating_add(2)
            },
            None => 0,
        }
    }
}

impl Renderer {
    /// The styles of the level's name and of the text of a heading.
    pub open spec fn title_styles(&self, heading: HeadingView, title_style: TitleStyle) -> (
        ElementStyle,
        ElementStyle,
    ) {
        match title_style {
            TitleStyle::MainHeader => (
                ElementStyle::Level(heading.level),
                if self.short_message {
                    ElementStyle::NoStyle
                } else {
                    ElementStyle::MainHeaderMsg
                },
            ),
            TitleStyle::Header => (ElementStyle::Level(heading.level), ElementStyle::HeaderMsg),
            TitleStyle::Secondary => (ElementStyle::MainHeaderMsg, ElementStyle::NoStyle),
        }
    }

    /// The canvas after the name of the level, the code and the colon were
    /// written at the end of row `line`.
    pub open spec fn title_label_spec(&self, rows: Rows, heading: HeadingView, title_style: TitleStyle, line: usize) -> Rows {
        let styles = self.title_styles(heading, title_style);
        match heading.name {
            Some(name) => {
                let r1 = append_spec(rows, line, name, styles.0);
                let r2 = match heading.id {
                    Some(id) => {
                        let a = append_spec(r1, line, seq!['['], styles.0);
                        let b = match heading.url {
                            Some(url) => append_spec(a, line, link_start(url), styles.0),
                            None => a,
                        };
                        let c = append_spec(b, line, id, styles.0);
                        let d = if heading.url is Some {
                            append_spec(c, line, link_end(), styles.0)
                        } else {
                            c
                        };
                        append_spec(d, line, seq![']'], styles.0)
                    },
                    None => r1,
                };
                append_spec(r2, line, seq![':', ' '], styles.1)
            },
            None => rows,
        }
    }

    /// The canvas after the lines of `text` from character `from` on were
    /// written, line `i` of the text at the end of row `line + i`. Every
    /// line but the first is indented by `padding` blanks.
    pub open spec fn title_text_spec(
        &self,
        rows: Rows,
        text: Seq<char>,
        from: int,
        i: usize,
        line: usize,
        padding: usize,
        style: ElementStyle,
        joined: bool,
        sep_col: usize,
    ) -> Rows
        decreases text.len() - from,
    {
        if from > text.len() || from < 0 {
            rows
        } else {
            let row = line.saturating_add(i);
            let next = find_char(text, '\n', from);
            let r1 = if i != 0 {
                let padded = append_spec(rows, row, repeated(' ', padding as nat), ElementStyle::NoStyle);
                if joined {
                    putc_spec(
                        padded,
                        row,
                        sep_col,
                        crate::renderer::glyphs::col_separator_of(self.theme),
                        ElementStyle::LineNumber,
                    )
                } else {
                    padded
                }
            } else {
                rows
            };
            let r2 = append_spec(r1, row, text.subrange(from, next), style);
            if next >= text.len() || next < from {
                r2
            } else {
                self.title_text_spec(
                    r2,
                    text,
                    next + 1,
                    i.saturating_add(1),
                    line,
                    padding,
                    style,
                    joined,
                    sep_col,
                )
            }
        }
    }

    /// The canvas after a heading or a remark was written from row
    /// `buffer_msg_line_offset` on.
    ///
    /// A remark starts in the gutter with the marker for remarks. Then come
    /// the name of the level, the code in brackets and a colon, and the
    /// text, whose further lines are indented to below its first.
    pub open spec fn title_spec(
        &self,
        rows: Rows,
        heading: HeadingView,
        max_line_num_len: usize,
        title_style: TitleStyle,
        is_cont: bool,
        buffer_msg_line_offset: usize,
    ) -> Rows {
        let styles = self.title_styles(heading, title_style);
        let sep_col = max_line_num_len.saturating_add(1);
        let r1 = if title_style == TitleStyle::Secondary {
            let padded = if max_line_num_len > 0 {
                prepend_spec(
                    rows,
                    buffer_msg_line_offset,
                    repeated(' ', max_line_num_len as nat),
                    ElementStyle::NoStyle,
                )
            } else {
                rows
            };
            puts_spec(
                padded,
                buffer_msg_line_offset,
                sep_col,
                note_separator_of(self.theme, is_cont),
                ElementStyle::LineNumber,
            )
        } else {
            rows
        };
        let r2 = self.title_label_spec(r1, heading, title_style, buffer_msg_line_offset);
        let padding = if title_style == TitleStyle::Secondary {
            max_line_num_len.saturating_add(3).saturating_add(heading.label_width())
        } else {
            heading.label_width()
        };
        self.title_text_spec(
            r2,
            if heading.pre_styled {
                heading.text
            } else {
                normalized(heading.text)
            },
            0,
            0,
            buffer_msg_line_offset,
            padding,
            if heading.pre_styled {
                ElementStyle::NoStyle
            } else {
                styles.1
            },
            title_style == TitleStyle::Secondary && is_cont && self.theme == OutputTheme::Unicode,
            sep_col,
        )
    }

    /// Writes a heading or a remark from row `buffer_msg_line_offset` on.
    pub fn render_title(
        &self,
        buffer: &mut StyledBuffer,
        heading: &Heading,
        max_line_num_len: usize,
        title_style: TitleStyle,
        is_cont: bool,
        buffer_msg_line_offset: usize,
    )
        ensures
            final(buffer)@ == self.title_spec(
                old(buffer)@,
                heading@,
                max_line_num_len,
                title_style,
                is_cont,
                buffer_msg_line_offset,
            ),
    {
        let line = buffer_msg_line_offset;
        let sep_col = max_line_num_len.saturating_add(1);
        let (label_style, title_element_style) = match title_style {
            TitleStyle::MainHeader => (
                ElementStyle::Level(heading.level),
                if self.short_message {
                    ElementStyle::NoStyle
                } else {
                    ElementStyle::MainHeaderMsg
                },
            ),
            TitleStyle::Header => (ElementStyle::Level(heading.level), ElementStyle::HeaderMsg),
            TitleStyle::Secondary => {
                if max_line_num_len > 0 {
                    let blanks = blanks_of(max_line_num_len);
                    buffer.prepend(line, &blanks, ElementStyle::NoStyle);
                }
                self.draw_note_separator(buffer, line, sep_col, is_cont);
                (ElementStyle::MainHeaderMsg, ElementStyle::NoStyle)
            },
        };
        let mut label_width: usize = 0;
        if let Some(name) = &heading.name {
            buffer.append(line, name, label_style);
            label_width = byte_count(name);
            if let Some(id) = &heading.id {
                let open: Vec<char> = vec!['['];
                assert(open@ =~= seq!['[']);
                buffer.append(line, &open, label_style);
                if let Some(url) = &heading.url {
                    let mut link: Vec<char> = vec!['\u{1b}', ']', '8', ';', ';'];
                    crate::splice::extend_from(&mut link, url, 0, url.len());
                    link.push('\u{1b}');
                    link.push('\\');
                    proof {
                        assert(url@.subrange(0, url@.len() as int) =~= url@);
                        assert(link@ =~= link_start(url@));
                    }
                    buffer.append(line, &link, label_style);
                }
                buffer.append(line, id, label_style);
                if heading.url.is_some() {
                    let close: Vec<char> = vec!['\u{1b}', ']', '8', ';', ';', '\u{1b}', '\\'];
                    assert(close@ =~= link_end());
                    buffer.append(line, &close, label_style);
                }
                let close: Vec<char> = vec![']'];
                assert(close@ =~= seq![']']);
                buffer.append(line, &close, label_style);
                label_width = label_width.saturating_add(2usize.saturating_add(byte_count(id)));
            }
            let colon: Vec<char> = vec![':', ' '];
            assert(colon@ =~= seq![':', ' ']);
            buffer.append(line, &colon, title_element_style);
            label_width = label_width.saturating_add(2);
        }
        // Further lines of the text start below the first one. For a
        // remark, that is behind the gutter, the marker and the label.
        let padding = if title_style == TitleStyle::Secondary {
            max_line_num_len.saturating_add(3).saturating_add(label_width)
        } else {
            label_width
        };
        let blanks = blanks_of(padding);
        let normal = normalize_whitespace(&heading.text);
        let text: &Vec<char> = if heading.pre_styled {
            &heading.text
        } else {
            &normal
        };
        let style = if heading.pre_styled {
            ElementStyle::NoStyle
        } else {
            title_element_style
        };
        let joined = title_style == TitleStyle::Secondary && is_cont && self.theme
            == OutputTheme::Unicode;
        let mut from: usize = 0;
        let mut i: usize = 0;
        let mut done = false;
        let ghost target = self.title_spec(
            old(buffer)@,
            heading@,
            max_line_num_len,
            title_style,
            is_cont,
            buffer_msg_line_offset,
        );
        while !done
            invariant
                from <= text@.len(),
                blanks@ == repeated(' ', padding as nat),
                !done ==> self.title_text_spec(
                    buffer@,
                    text@,
                    from as int,
                    i,
                    line,
                    padding,
                    style,
                    joined,
                    sep_col,
                ) == target,
                done ==> buffer@ == target,
            decreases text@.len() - from, !done as int,
        {
            let row = line.saturating_add(i);
            let next = find_from(text, '\n', from);
            if i != 0 {
                buffer.append(row, &blanks, ElementStyle::NoStyle);
                if joined {
                    // Another remark follows: the line that joins them goes on.
                    self.draw_col_separator_no_space(buffer, row, sep_col);
                }
            }
            let part = slice_of(text, from, next);
            buffer.append(row, &part, style);
            if next >= text.len() {
                done = true;
            } else {
                from = next + 1;
                i = i.saturating_add(1);
            }
        }
    }

    /// The canvas after a place in a file was written on row
    /// `buffer_msg_line_offset`: the arrow of the theme, the place, and
    /// before both the blanks that make room for line numbers.
    pub open spec fn origin_spec(
        &self,
        rows: Rows,
        max_line_num_len: usize,
        path: Seq<char>,
        line: Option<usize>,
        char_column: Option<usize>,
        primary: bool,
        buffer_msg_line_offset: usize,
    ) -> Rows {
        let r1 = if self.short_message {
            rows
        } else {
            prepend_spec(
                rows,
                buffer_msg_line_offset,
                if primary {
                    file_start_of(self.theme)
                } else {
                    secondary_file_start_of(self.theme)
                },
                ElementStyle::LineNumber,
            )
        };
        let r2 = append_spec(
            r1,
            buffer_msg_line_offset,
            origin_text(path, line, char_column),
            ElementStyle::LineAndColumn,
        );
        if !self.short_message && max_line_num_len > 0 {
            prepend_spec(
                r2,
                buffer_msg_line_offset,
                repeated(' ', max_line_num_len as nat),
                ElementStyle::NoStyle,
            )
        } else {
            r2
        }
    }

    /// Writes a place in a file on row `buffer_msg_line_offset`.
    pub fn render_origin(
        &self,
        buffer: &mut StyledBuffer,
        max_line_num_len: usize,
        path: &Vec<char>,
        line: Option<usize>,
        char_column: Option<usize>,
        primary: bool,
        buffer_msg_line_offset: usize,
    )
        ensures
            final(buffer)@ == self.origin_spec(
                old(buffer)@,
                max_line_num_len,
                path@,
                line,
                char_column,
                primary,
                buffer_msg_line_offset,
            ),
    {
        if !self.short_message {
            let arrow = if primary {
                self.file_start()
            } else {
                self.secondary_file_start()
            };
            buffer.prepend(buffer_msg_line_offset, &arrow, ElementStyle::LineNumber);
        }
        let mut text = slice_of(path, 0, path.len());
        proof {
            assert(path@.subrange(0, path@.len() as int) =~= path@);
        }
        if let Some(l) = line {
            text.push(':');
            let digits = decimal_chars(l);
            crate::splice::extend_from(&mut text, &digits, 0, digits.len());
            proof {
                assert(digits@.subrange(0, digits@.len() as int) =~= digits@);
                assert(text@ =~= path@ + seq![':'] + decimal(l as nat));
            }
            if let Some(c) = char_column {
                text.push(':');
                let digits = decimal_chars(c);
                crate::splice::extend_from(&mut text, &digits, 0, digits.len());
                proof {
                    assert(digits@.subrange(0, digits@.len() as int) =~= digits@);
                    assert(text@ =~= path@ + seq![':'] + decimal(l as nat) + seq![':'] + decimal(
                        c as nat,
                    ));
                }
            }
        }
        buffer.append(buffer_msg_line_offset, &text, ElementStyle::LineAndColumn);
        if !self.short_message && max_line_num_len > 0 {
            let blanks = blanks_of(max_line_num_len);
            buffer.prepend(buffer_msg_line_offset, &blanks, ElementStyle::NoStyle);
        }
    }
}

/// The text of `n` blanks.
pub fn blanks_of(n: usize) -> (out: Vec<char>)
    ensures
        out@ == repeated(' ', n as nat),
{
    let mut out: Vec<char> = Vec::new();
    let mut i: usize = 0;
    assert(out@ =~= repeated(' ', 0));
    while i < n
        invariant
            i <= n,
            out@ == repeated(' ', i as nat),
        decreases n - i,
    {
        out.push(' ');
        i += 1;
        assert(out@ =~= repeated(' ', i as nat));
    }
    out
}

} // verus!
