//! The characters of each theme, and the small strokes drawn with them.

use crate::renderer::{anonymized_line_num, OutputTheme, Renderer};
use crate::style::ElementStyle;
use crate::styled_buffer::{putc_spec, puts_spec, Rows, StyledBuffer};
use vstd::prelude::*;

verus! {

/// The characters that underlines and brackets of one kind are drawn with.
#[derive(Clone, Copy, Debug)]
pub struct UnderlineParts {
    pub style: ElementStyle,
    pub underline: char,
    pub label_start: char,
    pub vertical_text_line: char,
    pub multiline_vertical: char,
    pub multiline_horizontal: char,
    pub multiline_whole_line: char,
    pub multiline_start_down: char,
    pub bottom_right: char,
    pub top_left: char,
    pub top_right_flat: char,
    pub bottom_left: char,
    pub multiline_end_up: char,
    pub multiline_end_same_line: char,
    pub multiline_bottom_right_with_text: char,
}

/// The characters for underlines and brackets in `theme`, primary or not.
pub open spec fn underline_parts(theme: OutputTheme, is_primary: bool) -> UnderlineParts {
    match (theme, is_primary) {
        (OutputTheme::Ascii, true) => UnderlineParts {
            style: ElementStyle::UnderlinePrimary,
            underline: '^',
            label_start: '^',
            vertical_text_line: '|',
            multiline_vertical: '|',
            multiline_horizontal: '_',
            multiline_whole_line: '/',
            multiline_start_down: '^',
            bottom_right: '|',
            top_left: ' ',
            top_right_flat: '^',
            bottom_left: '|',
            multiline_end_up: '^',
            multiline_end_same_line: '^',
            multiline_bottom_right_with_text: '|',
        },
        (OutputTheme::Ascii, false) => UnderlineParts {
            style: ElementStyle::UnderlineSecondary,
            underline: '-',
            label_start: '-',
            vertical_text_line: '|',
            multiline_vertical: '|',
            multiline_horizontal: '_',
            multiline_whole_line: '/',
            multiline_start_down: '-',
            bottom_right: '|',
            top_left: ' ',
            top_right_flat: '-',
            bottom_left: '|',
            multiline_end_up: '-',
            multiline_end_same_line: '-',
            multiline_bottom_right_with_text: '|',
        },
        (OutputTheme::Unicode, true) => UnderlineParts {
            style: ElementStyle::UnderlinePrimary,
            underline: '━',
            label_start: '┯',
            vertical_text_line: '│',
            multiline_vertical: '┃',
            multiline_horizontal: '━',
            multiline_whole_line: '┏',
            multiline_start_down: '╿',
            bottom_right: '┙',
            top_left: '┏',
            top_right_flat: '┛',
            bottom_left: '┗',
            multiline_end_up: '╿',
            multiline_end_same_line: '┛',
            multiline_bottom_right_with_text: '┥',
        },
        (OutputTheme::Unicode, false) => UnderlineParts {
            style: ElementStyle::UnderlineSecondary,
            underline: '─',
            label_start: '┬',
            vertical_text_line: '│',
            multiline_vertical: '│',
            multiline_horizontal: '─',
            multiline_whole_line: '┌',
            multiline_start_down: '│',
            bottom_right: '┘',
            top_left: '┌',
            top_right_flat: '┘',
            bottom_left: '└',
            multiline_end_up: '│',
            multiline_end_same_line: '┘',
            multiline_bottom_right_with_text: '┤',
        },
    }
}

/// The character of the line between gutter and source.
pub open spec fn col_separator_of(theme: OutputTheme) -> char {
    match theme {
        OutputTheme::Ascii => '|',
        OutputTheme::Unicode => '│',
    }
}

/// The marker that cuts off part of a line.
pub open spec fn margin_of(theme: OutputTheme) -> Seq<char> {
    match theme {
        OutputTheme::Ascii => seq!['.', '.', '.'],
        OutputTheme::Unicode => seq!['…'],
    }
}

/// The arrow before the path of the primary file.
pub open spec fn file_start_of(theme: OutputTheme) -> Seq<char> {
    match theme {
        OutputTheme::Ascii => seq!['-', '-', '>', ' '],
        OutputTheme::Unicode => seq![' ', '╭', '▸', ' '],
    }
}

/// The marker before the path of another file.
pub open spec fn secondary_file_start_of(theme: OutputTheme) -> Seq<char> {
    match theme {
        OutputTheme::Ascii => seq![':', ':', ':', ' '],
        OutputTheme::Unicode => seq![' ', '⸬', ' ', ' '],
    }
}

/// The marker between two suggestions.
pub open spec fn multi_suggestion_separator_of(theme: OutputTheme) -> Seq<char> {
    match theme {
        OutputTheme::Ascii => seq!['|'],
        OutputTheme::Unicode => seq!['├', '╴'],
    }
}

/// The marker before a remark; `is_cont` says that another remark follows.
pub open spec fn note_separator_of(theme: OutputTheme, is_cont: bool) -> Seq<char> {
    match theme {
        OutputTheme::Ascii => seq!['=', ' '],
        OutputTheme::Unicode => if is_cont {
            seq!['├', ' ']
        } else {
            seq!['╰', ' ']
        },
    }
}

/// The character under text that a suggestion changes.
pub open spec fn diff_of(theme: OutputTheme) -> char {
    match theme {
        OutputTheme::Ascii => '~',
        OutputTheme::Unicode => '±',
    }
}

/// The character of a bracket that passes a line, for a bracket drawn in `style`.
pub open spec fn multiline_line_char(theme: OutputTheme, style: ElementStyle) -> char {
    match theme {
        OutputTheme::Ascii => '|',
        OutputTheme::Unicode => if style == ElementStyle::UnderlinePrimary || style
            == ElementStyle::LabelPrimary {
            '┃'
        } else {
            '│'
        },
    }
}

/// The decimal digits of `n`.
pub open spec fn decimal(n: nat) -> Seq<char>
    decreases n,
{
    if n < 10 {
        seq![digit(n)]
    } else {
        decimal(n / 10).push(digit(n % 10))
    }
}

/// The character of the digit `d`.
pub open spec fn digit(d: nat) -> char {
    (('0' as u32) + d) as char
}

/// The text of `n` times `symbol`.
pub open spec fn repeated(symbol: char, n: nat) -> Seq<char> {
    Seq::new(n, |i: int| symbol)
}

/// `text` with blanks before it so that it has at least `width` characters.
pub open spec fn pad_left(text: Seq<char>, width: nat) -> Seq<char> {
    if text.len() >= width {
        text
    } else {
        Seq::new((width - text.len()) as nat, |i: int| ' ') + text
    }
}

/// The decimal digits of `n`.
pub fn decimal_chars(n: usize) -> (out: Vec<char>)
    ensures
        out@ == decimal(n as nat),
        out@.len() >= 1,
    decreases n,
{
    let last: char = match n % 10 {
        0 => '0',
        1 => '1',
        2 => '2',
        3 => '3',
        4 => '4',
        5 => '5',
        6 => '6',
        7 => '7',
        8 => '8',
        _ => '9',
    };
    assert(last == digit((n % 10) as nat));
    if n < 10 {
        let out = vec![last];
        assert(out@ =~= seq![digit(n as nat)]);
        out
    } else {
        let mut out = decimal_chars(n / 10);
        out.push(last);
        out
    }
}

/// Number of decimal digits of `num`.
pub fn num_decimal_digits(num: usize) -> (n: usize)
    ensures
        n == decimal(num as nat).len(),
        n >= 1,
{
    let mut rest = num;
    let mut n: usize = 1;
    while rest >= 10
        invariant
            n >= 1,
            decimal(num as nat).len() == decimal(rest as nat).len() + n - 1,
            n <= num - rest + 1,
        decreases rest,
    {
        rest = rest / 10;
        n += 1;
    }
    n
}

/// `text` with blanks before it so that it has at least `width` characters.
pub fn padded_left(text: Vec<char>, width: usize) -> (out: Vec<char>)
    ensures
        out@ == pad_left(text@, width as nat),
{
    if text.len() >= width {
        return text;
    }
    let mut out: Vec<char> = Vec::new();
    let fill = width - text.len();
    let mut i: usize = 0;
    while i < fill
        invariant
            i <= fill,
            out@ == Seq::new(i as nat, |k: int| ' '),
        decreases fill - i,
    {
        out.push(' ');
        assert(out@ =~= Seq::new((i + 1) as nat, |k: int| ' '));
        i += 1;
    }
    let mut j: usize = 0;
    while j < text.len()
        invariant
            j <= text.len(),
            out@ == Seq::new(fill as nat, |k: int| ' ') + text@.take(j as int),
        decreases text.len() - j,
    {
        out.push(text[j]);
        assert(out@ =~= Seq::new(fill as nat, |k: int| ' ') + text@.take(j + 1));
        j += 1;
    }
    assert(text@.take(text@.len() as int) =~= text@);
    out
}

impl Renderer {
    /// The characters for underlines and brackets, primary or not.
    pub fn underline(&self, is_primary: bool) -> (parts: UnderlineParts)
        ensures
            parts == underline_parts(self.theme, is_primary),
    {
        match (self.theme, is_primary) {
            (OutputTheme::Ascii, true) => UnderlineParts {
                style: ElementStyle::UnderlinePrimary,
                underline: '^',
                label_start: '^',
                vertical_text_line: '|',
                multiline_vertical: '|',
                multiline_horizontal: '_',
                multiline_whole_line: '/',
                multiline_start_down: '^',
                bottom_right: '|',
                top_left: ' ',
                top_right_flat: '^',
                bottom_left: '|',
                multiline_end_up: '^',
                multiline_end_same_line: '^',
                multiline_bottom_right_with_text: '|',
            },
            (OutputTheme::Ascii, false) => UnderlineParts {
                style: ElementStyle::UnderlineSecondary,
                underline: '-',
                label_start: '-',
                vertical_text_line: '|',
                multiline_vertical: '|',
                multiline_horizontal: '_',
                multiline_whole_line: '/',
                multiline_start_down: '-',
                bottom_right: '|',
                top_left: ' ',
                top_right_flat: '-',
                bottom_left: '|',
                multiline_end_up: '-',
                multiline_end_same_line: '-',
                multiline_bottom_right_with_text: '|',
            },
            (OutputTheme::Unicode, true) => UnderlineParts {
                style: ElementStyle::UnderlinePrimary,
                underline: '━',
                label_start: '┯',
                vertical_text_line: '│',
                multiline_vertical: '┃',
                multiline_horizontal: '━',
                multiline_whole_line: '┏',
                multiline_start_down: '╿',
                bottom_right: '┙',
                top_left: '┏',
                top_right_flat: '┛',
                bottom_left: '┗',
                multiline_end_up: '╿',
                multiline_end_same_line: '┛',
                multiline_bottom_right_with_text: '┥',
            },
            (OutputTheme::Unicode, false) => UnderlineParts {
                style: ElementStyle::UnderlineSecondary,
                underline: '─',
                label_start: '┬',
                vertical_text_line: '│',
                multiline_vertical: '│',
                multiline_horizontal: '─',
                multiline_whole_line: '┌',
                multiline_start_down: '│',
                bottom_right: '┘',
                top_left: '┌',
                top_right_flat: '┘',
                bottom_left: '└',
                multiline_end_up: '│',
                multiline_end_same_line: '┘',
                multiline_bottom_right_with_text: '┤',
            },
        }
    }

    /// The character of the line between gutter and source.
    pub fn col_separator(&self) -> (c: char)
        ensures
            c == col_separator_of(self.theme),
    {
        match self.theme {
            OutputTheme::Ascii => '|',
            OutputTheme::Unicode => '│',
        }
    }

    /// The marker between two suggestions.
    pub fn multi_suggestion_separator(&self) -> (s: Vec<char>)
        ensures
            s@ == multi_suggestion_separator_of(self.theme),
    {
        match self.theme {
            OutputTheme::Ascii => vec!['|'],
            OutputTheme::Unicode => vec!['├', '╴'],
        }
    }

    /// The arrow before the path of the primary file.
    pub fn file_start(&self) -> (s: Vec<char>)
        ensures
            s@ == file_start_of(self.theme),
    {
        match self.theme {
            OutputTheme::Ascii => vec!['-', '-', '>', ' '],
            OutputTheme::Unicode => vec![' ', '╭', '▸', ' '],
        }
    }

    /// The marker before the path of another file.
    pub fn secondary_file_start(&self) -> (s: Vec<char>)
        ensures
            s@ == secondary_file_start_of(self.theme),
    {
        match self.theme {
            OutputTheme::Ascii => vec![':', ':', ':', ' '],
            OutputTheme::Unicode => vec![' ', '⸬', ' ', ' '],
        }
    }

    /// The character under text that a suggestion changes.
    pub fn diff(&self) -> (c: char)
        ensures
            c == diff_of(self.theme),
    {
        match self.theme {
            OutputTheme::Ascii => '~',
            OutputTheme::Unicode => '±',
        }
    }

    /// The marker that cuts off part of a line.
    pub fn margin(&self) -> (s: Vec<char>)
        ensures
            s@ == margin_of(self.theme),
    {
        match self.theme {
            OutputTheme::Ascii => vec!['.', '.', '.'],
            OutputTheme::Unicode => vec!['…'],
        }
    }

    /// The number of a line as it is shown in the gutter: right-aligned in
    /// `max_line_num_len` columns, and `LL` where line numbers are anonymized.
    pub open spec fn line_number_text(&self, line_num: usize, max_line_num_len: usize) -> Seq<char> {
        pad_left(
            if self.anonymized_line_numbers {
                anonymized_line_num()
            } else {
                decimal(line_num as nat)
            },
            max_line_num_len as nat,
        )
    }

    /// The number of a line as it is shown in the gutter.
    pub fn maybe_anonymized(&self, line_num: usize, max_line_num_len: usize) -> (s: Vec<char>)
        ensures
            s@ == self.line_number_text(line_num, max_line_num_len),
    {
        let text = if self.anonymized_line_numbers {
            vec!['L', 'L']
        } else {
            decimal_chars(line_num)
        };
        padded_left(text, max_line_num_len)
    }

    /// Draws `symbol` into the columns `col_from..col_to` of row `line`.
    pub fn draw_range(
        &self,
        buffer: &mut StyledBuffer,
        symbol: char,
        line: usize,
        col_from: usize,
        col_to: usize,
        style: ElementStyle,
    )
        ensures
            final(buffer)@ == puts_spec(
                old(buffer)@,
                line,
                col_from,
                repeated(symbol, col_to.saturating_sub(col_from) as nat),
                style,
            ),
    {
        if col_to <= col_from {
            assert(repeated(symbol, 0).len() == 0);
            return ;
        }
        let mut run: Vec<char> = Vec::new();
        let mut col = col_from;
        assert(run@ =~= repeated(symbol, 0));
        while col < col_to
            invariant
                col_from <= col <= col_to,
                run@ == repeated(symbol, (col - col_from) as nat),
            decreases col_to - col,
        {
            run.push(symbol);
            col += 1;
            assert(run@ =~= repeated(symbol, (col - col_from) as nat));
        }
        buffer.puts(line, col_from, &run, style);
    }

    /// Draws the bracket of gutter column `depth` where it passes row `line`.
    pub fn draw_multiline_line(
        &self,
        buffer: &mut StyledBuffer,
        line: usize,
        offset: usize,
        depth: usize,
        style: ElementStyle,
    )
        ensures
            final(buffer)@ == putc_spec(
                old(buffer)@,
                line,
                offset.saturating_add(depth).saturating_sub(1),
                multiline_line_char(self.theme, style),
                style,
            ),
    {
        let chr = match self.theme {
            OutputTheme::Ascii => '|',
            OutputTheme::Unicode => match style {
                ElementStyle::UnderlinePrimary => '┃',
                ElementStyle::LabelPrimary => '┃',
                _ => '│',
            },
        };
        buffer.putc(line, offset.saturating_add(depth).saturating_sub(1), chr, style);
    }

    /// Draws the line between gutter and source, and a blank after it.
    pub fn draw_col_separator(&self, buffer: &mut StyledBuffer, line: usize, col: usize)
        ensures
            final(buffer)@ == puts_spec(
                old(buffer)@,
                line,
                col,
                seq![col_separator_of(self.theme), ' '],
                ElementStyle::LineNumber,
            ),
    {
        let text: Vec<char> = vec![self.col_separator(), ' '];
        assert(text@ =~= seq![col_separator_of(self.theme), ' ']);
        buffer.puts(line, col, &text, ElementStyle::LineNumber);
    }

    /// Draws the line between gutter and source.
    pub fn draw_col_separator_no_space(&self, buffer: &mut StyledBuffer, line: usize, col: usize)
        ensures
            final(buffer)@ == putc_spec(
                old(buffer)@,
                line,
                col,
                col_separator_of(self.theme),
                ElementStyle::LineNumber,
            ),
    {
        let chr = self.col_separator();
        self.draw_col_separator_no_space_with_style(buffer, chr, line, col, ElementStyle::LineNumber);
    }

    /// What the start of the line between gutter and source looks like.
    pub open spec fn col_separator_start_spec(&self, rows: Rows, line: usize, col: usize) -> Rows {
        match self.theme {
            OutputTheme::Ascii => putc_spec(rows, line, col, '|', ElementStyle::LineNumber),
            OutputTheme::Unicode => putc_spec(
                putc_spec(rows, line, col, '╭', ElementStyle::LineNumber),
                line,
                col.saturating_add(1),
                '╴',
                ElementStyle::LineNumber,
            ),
        }
    }

    /// Draws the start of the line between gutter and source.
    pub fn draw_col_separator_start(&self, buffer: &mut StyledBuffer, line: usize, col: usize)
        ensures
            final(buffer)@ == self.col_separator_start_spec(old(buffer)@, line, col),
    {
        match self.theme {
            OutputTheme::Ascii => {
                self.draw_col_separator_no_space_with_style(
                    buffer,
                    '|',
                    line,
                    col,
                    ElementStyle::LineNumber,
                );
            },
            OutputTheme::Unicode => {
                self.draw_col_separator_no_space_with_style(
                    buffer,
                    '╭',
                    line,
                    col,
                    ElementStyle::LineNumber,
                );
                self.draw_col_separator_no_space_with_style(
                    buffer,
                    '╴',
                    line,
                    col.saturating_add(1),
                    ElementStyle::LineNumber,
                );
            },
        }
    }

    /// What the end of the line between gutter and source looks like.
    pub open spec fn col_separator_end_spec(&self, rows: Rows, line: usize, col: usize) -> Rows {
        match self.theme {
            OutputTheme::Ascii => putc_spec(rows, line, col, '|', ElementStyle::LineNumber),
            OutputTheme::Unicode => putc_spec(
                putc_spec(rows, line, col, '╰', ElementStyle::LineNumber),
                line,
                col.saturating_add(1),
                '╴',
                ElementStyle::LineNumber,
            ),
        }
    }

    /// Draws the end of the line between gutter and source.
    pub fn draw_col_separator_end(&self, buffer: &mut StyledBuffer, line: usize, col: usize)
        ensures
            final(buffer)@ == self.col_separator_end_spec(old(buffer)@, line, col),
    {
        match self.theme {
            OutputTheme::Ascii => {
                self.draw_col_separator_no_space_with_style(
                    buffer,
                    '|',
                    line,
                    col,
                    ElementStyle::LineNumber,
                );
            },
            OutputTheme::Unicode => {
                self.draw_col_separator_no_space_with_style(
                    buffer,
                    '╰',
                    line,
                    col,
                    ElementStyle::LineNumber,
                );
                self.draw_col_separator_no_space_with_style(
                    buffer,
                    '╴',
                    line,
                    col.saturating_add(1),
                    ElementStyle::LineNumber,
                );
            },
        }
    }

    /// Draws one character of the gutter.
    pub fn draw_col_separator_no_space_with_style(
        &self,
        buffer: &mut StyledBuffer,
        chr: char,
        line: usize,
        col: usize,
        style: ElementStyle,
    )
        ensures
            final(buffer)@ == putc_spec(old(buffer)@, line, col, chr, style),
    {
        buffer.putc(line, col, chr, style);
    }

    /// Draws the marker before a remark.
    pub fn draw_note_separator(&self, buffer: &mut StyledBuffer, line: usize, col: usize, is_cont: bool)
        ensures
            final(buffer)@ == puts_spec(
                old(buffer)@,
                line,
                col,
                note_separator_of(self.theme, is_cont),
                ElementStyle::LineNumber,
            ),
    {
        let chr: Vec<char> = match self.theme {
            OutputTheme::Ascii => vec!['=', ' '],
            OutputTheme::Unicode => if is_cont {
                vec!['├', ' ']
            } else {
                vec!['╰', ' ']
            },
        };
        buffer.puts(line, col, &chr, ElementStyle::LineNumber);
    }

    /// What stands in the gutter for lines that are left out.
    pub open spec fn line_separator_spec(&self, rows: Rows, line: usize, col: usize) -> Rows {
        match self.theme {
            OutputTheme::Ascii => puts_spec(rows, line, 0, seq!['.', '.', '.'], ElementStyle::LineNumber),
            OutputTheme::Unicode => puts_spec(
                rows,
                line,
                col.saturating_sub(2),
                seq!['‡'],
                ElementStyle::LineNumber,
            ),
        }
    }

    /// Draws what stands in the gutter for lines that are left out.
    pub fn draw_line_separator(&self, buffer: &mut StyledBuffer, line: usize, col: usize)
        ensures
            final(buffer)@ == self.line_separator_spec(old(buffer)@, line, col),
    {
        match self.theme {
            OutputTheme::Ascii => {
                let dots: Vec<char> = vec!['.', '.', '.'];
                assert(dots@ =~= seq!['.', '.', '.']);
                buffer.puts(line, 0, &dots, ElementStyle::LineNumber);
            },
            OutputTheme::Unicode => {
                let dots: Vec<char> = vec!['‡'];
                assert(dots@ =~= seq!['‡']);
                buffer.puts(line, col.saturating_sub(2), &dots, ElementStyle::LineNumber);
            },
        }
    }
}

} // verus!
