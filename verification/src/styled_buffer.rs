//! The canvas: a growable grid of styled characters, and its flattening to text.

use crate::level::LevelInner;
use crate::style::{ansi_codes, reset_codes, ElementStyle, Style, Stylesheet};
use crate::text::push_chars;
use vstd::prelude::*;

verus! {

/// One cell of the canvas.
#[derive(Clone, Copy, Debug, PartialEq, Eq, Structural)]
pub struct StyledChar {
    pub ch: char,
    pub style: ElementStyle,
}

/// The cell that rows are padded with.
pub open spec fn blank() -> StyledChar {
    StyledChar { ch: ' ', style: ElementStyle::NoStyle }
}

/// The rows of a canvas.
pub type Rows = Seq<Seq<StyledChar>>;

/// The cell that shows `ch` in `style`.
pub open spec fn cell(ch: char, style: ElementStyle) -> StyledChar {
    StyledChar { ch, style }
}

/// `text` as cells of one style.
pub open spec fn styled(text: Seq<char>, style: ElementStyle) -> Seq<StyledChar> {
    Seq::new(text.len(), |i: int| cell(text[i], style))
}

/// `rows`, with empty rows added so that row `line` exists.
pub open spec fn with_row(rows: Rows, line: int) -> Rows {
    if line < rows.len() {
        rows
    } else {
        rows + Seq::new((line + 1 - rows.len()) as nat, |i: int| Seq::<StyledChar>::empty())
    }
}

/// `row` with `cells` written over it from column `col` on; the row is padded
/// with blanks where it is too short.
pub open spec fn overwrite(row: Seq<StyledChar>, col: int, cells: Seq<StyledChar>) -> Seq<
    StyledChar,
> {
    let len = if row.len() > col + cells.len() {
        row.len()
    } else {
        (col + cells.len()) as nat
    };
    Seq::new(
        len,
        |i: int|
            if col <= i < col + cells.len() {
                cells[i - col]
            } else if i < row.len() {
                row[i]
            } else {
                blank()
            },
    )
}

/// Writing one character: rows and columns are added as needed, and a
/// position at the very end of the index range is left alone.
pub open spec fn putc_spec(rows: Rows, line: usize, col: usize, ch: char, style: ElementStyle) -> Rows {
    if line == usize::MAX || col == usize::MAX {
        rows
    } else {
        let r = with_row(rows, line as int);
        r.update(line as int, overwrite(r[line as int], col as int, seq![cell(ch, style)]))
    }
}

/// Writing a text from a column on. Nothing is written where the text is
/// empty or would reach past the index range.
pub open spec fn puts_spec(rows: Rows, line: usize, col: usize, text: Seq<char>, style: ElementStyle) -> Rows {
    if text.len() == 0 || line == usize::MAX || col + text.len() > usize::MAX {
        rows
    } else {
        let r = with_row(rows, line as int);
        r.update(line as int, overwrite(r[line as int], col as int, styled(text, style)))
    }
}

/// Writing a text after what the row holds.
pub open spec fn append_spec(rows: Rows, line: usize, text: Seq<char>, style: ElementStyle) -> Rows {
    if line < rows.len() {
        puts_spec(rows, line, saturate_len(rows[line as int].len()), text, style)
    } else {
        puts_spec(rows, line, 0, text, style)
    }
}

/// The length `n` as a `usize`, or the largest `usize` where it is larger.
pub open spec fn saturate_len(n: nat) -> usize {
    if n > usize::MAX {
        usize::MAX
    } else {
        n as usize
    }
}

/// Writing a text before what the row holds, which moves to the right.
pub open spec fn prepend_spec(rows: Rows, line: usize, text: Seq<char>, style: ElementStyle) -> Rows {
    if line == usize::MAX {
        rows
    } else {
        let r = with_row(rows, line as int);
        r.update(line as int, styled(text, style) + r[line as int])
    }
}

/// Replacing the cells `start..end` of a row by a text in the style of line
/// numbers. A range that is empty or not within the row changes nothing.
pub open spec fn replace_spec(rows: Rows, line: usize, start: usize, end: usize, text: Seq<char>) -> Rows {
    if line >= rows.len() || start >= end || end > rows[line as int].len() {
        rows
    } else {
        let row = rows[line as int];
        rows.update(
            line as int,
            row.take(start as int) + styled(text, ElementStyle::LineNumber) + row.skip(end as int),
        )
    }
}

/// Whether a cell's style may be replaced without `overwrite`.
pub open spec fn is_weak_style(style: ElementStyle) -> bool {
    style == ElementStyle::NoStyle || style == ElementStyle::Quotation
}

/// One row after restyling the columns `col_start..col_end`.
pub open spec fn restyle_row(
    row: Seq<StyledChar>,
    col_start: usize,
    col_end: usize,
    style: ElementStyle,
    overwrite: bool,
) -> Seq<StyledChar> {
    Seq::new(
        row.len(),
        |i: int|
            if col_start <= i < col_end && (overwrite || is_weak_style(row[i].style)) {
                cell(row[i].ch, style)
            } else {
                row[i]
            },
    )
}

/// Restyling a range of a row: the text stays, and a cell takes the new style
/// if `overwrite` is set or the cell had no style of its own. What lies
/// outside the canvas is ignored.
pub open spec fn set_style_range_spec(
    rows: Rows,
    line: usize,
    col_start: usize,
    col_end: usize,
    style: ElementStyle,
    overwrite: bool,
) -> Rows {
    if line >= rows.len() {
        rows
    } else {
        rows.update(line as int, restyle_row(rows[line as int], col_start, col_end, style, overwrite))
    }
}

/// The text of the cells `cells`, where `current` is the style in force
/// before them: a change of style ends the old one and starts the new one,
/// and the end of the row ends the last one.
pub open spec fn flatten_cells(
    cells: Seq<StyledChar>,
    current: Style,
    level: LevelInner,
    stylesheet: Stylesheet,
) -> Seq<char>
    decreases cells.len(),
{
    if cells.len() == 0 {
        reset_codes(current)
    } else {
        let style = cells[0].style.color_spec_of(level, stylesheet);
        let rest = flatten_cells(cells.drop_first(), style, level, stylesheet);
        if style != current {
            reset_codes(current) + ansi_codes(style) + seq![cells[0].ch] + rest
        } else {
            seq![cells[0].ch] + rest
        }
    }
}

/// The text of one row.
pub open spec fn flatten_row(row: Seq<StyledChar>, level: LevelInner, stylesheet: Stylesheet) -> Seq<
    char,
> {
    flatten_cells(row, stylesheet.none, level, stylesheet)
}

/// The text of the rows, with a line break between two rows and none at the end.
pub open spec fn flatten_rows(rows: Rows, level: LevelInner, stylesheet: Stylesheet) -> Seq<char>
    decreases rows.len(),
{
    if rows.len() == 0 {
        Seq::empty()
    } else if rows.len() == 1 {
        flatten_row(rows[0], level, stylesheet)
    } else {
        flatten_row(rows[0], level, stylesheet) + seq!['\n'] + flatten_rows(
            rows.drop_first(),
            level,
            stylesheet,
        )
    }
}

/// Styling one more character adds one cell.
pub proof fn lemma_styled_push(s: Seq<char>, i: int, style: ElementStyle)
    requires
        0 <= i < s.len(),
    ensures
        styled(s.take(i + 1), style) == styled(s.take(i), style).push(cell(s[i], style)),
        styled(s.take(0), style) == Seq::<StyledChar>::empty(),
        styled(s.take(s.len() as int), style) == styled(s, style),
{
    assert(s.take(i + 1) =~= s.take(i).push(s[i]));
    assert(styled(s.take(i + 1), style) =~= styled(s.take(i), style).push(cell(s[i], style)));
    assert(styled(s.take(0), style) =~= Seq::<StyledChar>::empty());
    assert(s.take(s.len() as int) =~= s);
}

/// The canvas: rows of styled characters that grow as they are written to.
pub struct StyledBuffer {
    pub lines: Vec<Vec<StyledChar>>,
}

impl View for StyledBuffer {
    type V = Rows;

    open spec fn view(&self) -> Rows {
        Seq::new(self.lines@.len(), |i: int| self.lines@[i]@)
    }
}

impl StyledBuffer {
    /// The empty canvas.
    pub fn new() -> (b: StyledBuffer)
        ensures
            b@ == Seq::<Seq<StyledChar>>::empty(),
    {
        let b = StyledBuffer { lines: Vec::new() };
        assert(b@ =~= Seq::<Seq<StyledChar>>::empty());
        b
    }

    /// Number of rows.
    pub fn num_lines(&self) -> (n: usize)
        ensures
            n == self@.len(),
    {
        self.lines.len()
    }

    /// Adds empty rows until row `line` exists.
    fn ensure_lines(&mut self, line: usize)
        requires
            line < usize::MAX,
        ensures
            final(self)@ == with_row(old(self)@, line as int),
            line < final(self)@.len(),
    {
        assert(self@ =~= old(self)@ + Seq::new(0nat, |i: int| Seq::<StyledChar>::empty()));
        while self.lines.len() <= line
            invariant
                line < usize::MAX,
                self.lines@.len() >= old(self).lines@.len(),
                self.lines@.len() <= line + 1 || self.lines@.len() == old(self).lines@.len(),
                self@ == old(self)@ + Seq::new(
                    (self.lines@.len() - old(self).lines@.len()) as nat,
                    |i: int| Seq::<StyledChar>::empty(),
                ),
            decreases line + 1 - self.lines.len(),
        {
            let ghost before = self@;
            self.lines.push(Vec::new());
            assert(self@ =~= before.push(Seq::<StyledChar>::empty()));
            assert(self@ =~= old(self)@ + Seq::new(
                (self.lines@.len() - old(self).lines@.len()) as nat,
                |i: int| Seq::<StyledChar>::empty(),
            ));
        }
        assert(self@ =~= with_row(old(self)@, line as int));
    }

    /// Replaces row `line` by `row`.
    fn set_row(&mut self, line: usize, row: Vec<StyledChar>)
        requires
            line < old(self)@.len(),
        ensures
            final(self)@ == old(self)@.update(line as int, row@),
    {
        self.lines[line] = row;
        assert(self@ =~= old(self)@.update(line as int, row@));
    }

    /// Takes row `line` out of the canvas, leaving an empty row in its place.
    fn take_row(&mut self, line: usize) -> (row: Vec<StyledChar>)
        requires
            line < old(self)@.len(),
        ensures
            row@ == old(self)@[line as int],
            final(self)@ == old(self)@.update(line as int, Seq::<StyledChar>::empty()),
    {
        let mut row: Vec<StyledChar> = Vec::new();
        core::mem::swap(&mut row, &mut self.lines[line]);
        assert(self@ =~= old(self)@.update(line as int, Seq::<StyledChar>::empty()));
        row
    }

    /// Sets the character and style of one cell.
    pub fn putc(&mut self, line: usize, col: usize, chr: char, style: ElementStyle)
        ensures
            final(self)@ == putc_spec(old(self)@, line, col, chr, style),
    {
        if line == usize::MAX || col == usize::MAX {
            return ;
        }
        self.ensure_lines(line);
        let ghost mid = self@;
        let mut row = self.take_row(line);
        while row.len() <= col
            invariant
                col < usize::MAX,
                row@.len() >= mid[line as int].len(),
                row@.len() <= col + 1 || row@.len() == mid[line as int].len(),
                row@ == mid[line as int] + Seq::new(
                    (row@.len() - mid[line as int].len()) as nat,
                    |i: int| blank(),
                ),
            decreases col + 1 - row.len(),
        {
            let ghost before = row@;
            row.push(StyledChar { ch: ' ', style: ElementStyle::NoStyle });
            assert(row@ =~= mid[line as int] + Seq::new(
                (row@.len() - mid[line as int].len()) as nat,
                |i: int| blank(),
            ));
        }
        row[col] = StyledChar { ch: chr, style };
        assert(row@ =~= overwrite(mid[line as int], col as int, seq![cell(chr, style)]));
        self.set_row(line, row);
        assert(self@ =~= putc_spec(old(self)@, line, col, chr, style));
    }

    /// Writes `string` in one style from column `col` on.
    pub fn puts(&mut self, line: usize, col: usize, string: &Vec<char>, style: ElementStyle)
        ensures
            final(self)@ == puts_spec(old(self)@, line, col, string@, style),
    {
        if string.len() == 0 || line == usize::MAX || col > usize::MAX - string.len() {
            return ;
        }
        let mut i: usize = 0;
        while i < string.len()
            invariant
                i <= string.len(),
                string.len() > 0,
                line < usize::MAX,
                col + string.len() <= usize::MAX,
                self@ == puts_spec(old(self)@, line, col, string@.take(i as int), style),
            decreases string.len() - i,
        {
            let ghost before = self@;
            self.putc(line, col + i, string[i], style);
            proof {
                let t0 = string@.take(i as int);
                let t1 = string@.take(i + 1);
                let c = cell(string@[i as int], style);
                lemma_styled_push(string@, i as int, style);
                let want = puts_spec(old(self)@, line, col, t1, style);
                let r = with_row(old(self)@, line as int);
                let row = r[line as int];
                assert(with_row(r, line as int) =~= r);
                if i == 0 {
                    assert(before == old(self)@);
                    assert(styled(t1, style) =~= seq![c]);
                } else {
                    assert(before == r.update(
                        line as int,
                        overwrite(row, col as int, styled(t0, style)),
                    ));
                    assert(with_row(before, line as int) =~= before);
                    assert(overwrite(
                        overwrite(row, col as int, styled(t0, style)),
                        col + i,
                        seq![c],
                    ) =~= overwrite(row, col as int, styled(t1, style)));
                }
                assert(self@ =~= want);
            }
            i += 1;
        }
        proof {
            assert(string@.take(string.len() as int) =~= string@);
        }
    }

    /// Writes `string` after what row `line` holds.
    pub fn append(&mut self, line: usize, string: &Vec<char>, style: ElementStyle)
        ensures
            final(self)@ == append_spec(old(self)@, line, string@, style),
    {
        if line >= self.lines.len() {
            self.puts(line, 0, string, style);
        } else {
            let col = self.lines[line].len();
            self.puts(line, col, string, style);
        }
    }

    /// Writes `string` before what row `line` holds.
    pub fn prepend(&mut self, line: usize, string: &Vec<char>, style: ElementStyle)
        ensures
            final(self)@ == prepend_spec(old(self)@, line, string@, style),
    {
        if line == usize::MAX {
            return ;
        }
        self.ensure_lines(line);
        let old_row = self.take_row(line);
        let mut row: Vec<StyledChar> = Vec::new();
        let mut i: usize = 0;
        assert(row@ =~= styled(string@.take(0), style));
        while i < string.len()
            invariant
                i <= string.len(),
                row@ == styled(string@.take(i as int), style),
            decreases string.len() - i,
        {
            row.push(StyledChar { ch: string[i], style });
            proof {
                lemma_styled_push(string@, i as int, style);
            }
            i += 1;
        }
        assert(string@.take(string.len() as int) =~= string@);
        let mut j: usize = 0;
        while j < old_row.len()
            invariant
                j <= old_row.len(),
                row@ == styled(string@, style) + old_row@.take(j as int),
            decreases old_row.len() - j,
        {
            row.push(old_row[j]);
            assert(row@ =~= styled(string@, style) + old_row@.take(j + 1));
            j += 1;
        }
        assert(old_row@.take(old_row.len() as int) =~= old_row@);
        self.set_row(line, row);
        assert(self@ =~= prepend_spec(old(self)@, line, string@, style));
    }

    /// Replaces the cells `start..end` of row `line` by `string`.
    pub fn replace(&mut self, line: usize, start: usize, end: usize, string: &Vec<char>)
        ensures
            final(self)@ == replace_spec(old(self)@, line, start, end, string@),
    {
        if line >= self.lines.len() || start >= end || end > self.lines[line].len() {
            return ;
        }
        let old_row = self.take_row(line);
        let mut row: Vec<StyledChar> = Vec::new();
        let mut k: usize = 0;
        while k < start
            invariant
                k <= start < end <= old_row.len(),
                row@ == old_row@.take(k as int),
            decreases start - k,
        {
            row.push(old_row[k]);
            assert(row@ =~= old_row@.take(k + 1));
            k += 1;
        }
        let mut i: usize = 0;
        assert(row@ =~= old_row@.take(start as int) + styled(
            string@.take(0),
            ElementStyle::LineNumber,
        ));
        while i < string.len()
            invariant
                i <= string.len(),
                row@ == old_row@.take(start as int) + styled(
                    string@.take(i as int),
                    ElementStyle::LineNumber,
                ),
            decreases string.len() - i,
        {
            row.push(StyledChar { ch: string[i], style: ElementStyle::LineNumber });
            proof {
                lemma_styled_push(string@, i as int, ElementStyle::LineNumber);
            }
            assert(row@ =~= old_row@.take(start as int) + styled(
                string@.take(i + 1),
                ElementStyle::LineNumber,
            ));
            i += 1;
        }
        assert(string@.take(string.len() as int) =~= string@);
        let mut j: usize = end;
        while j < old_row.len()
            invariant
                end <= j <= old_row.len(),
                row@ == old_row@.take(start as int) + styled(string@, ElementStyle::LineNumber)
                    + old_row@.subrange(end as int, j as int),
            decreases old_row.len() - j,
        {
            row.push(old_row[j]);
            assert(row@ =~= old_row@.take(start as int) + styled(
                string@,
                ElementStyle::LineNumber,
            ) + old_row@.subrange(end as int, j + 1));
            j += 1;
        }
        assert(old_row@.subrange(end as int, old_row.len() as int) =~= old_row@.skip(end as int));
        self.set_row(line, row);
        assert(self@ =~= replace_spec(old(self)@, line, start, end, string@));
    }

    /// Restyles one cell, if it exists.
    pub fn set_style(&mut self, line: usize, col: usize, style: ElementStyle, overwrite: bool)
        ensures
            final(self)@ == set_style_range_spec(
                old(self)@,
                line,
                col,
                if col < usize::MAX {
                    (col + 1) as usize
                } else {
                    col
                },
                style,
                overwrite,
            ),
    {
        let end = col.saturating_add(1);
        self.set_style_range(line, col, end, style, overwrite);
    }

    /// Restyles the columns `col_start..col_end` of row `line`.
    pub fn set_style_range(
        &mut self,
        line: usize,
        col_start: usize,
        col_end: usize,
        style: ElementStyle,
        overwrite: bool,
    )
        ensures
            final(self)@ == set_style_range_spec(
                old(self)@,
                line,
                col_start,
                col_end,
                style,
                overwrite,
            ),
    {
        if line >= self.lines.len() {
            return ;
        }
        let mut row = self.take_row(line);
        let ghost old_row = row@;
        let stop = if col_end < row.len() {
            col_end
        } else {
            row.len()
        };
        let mut col: usize = col_start;
        assert(row@ =~= restyle_row(old_row, col_start, col, style, overwrite));
        while col < stop
            invariant
                stop <= row.len(),
                stop <= col_end,
                row@.len() == old_row.len(),
                col_start <= col,
                col <= stop || col == col_start,
                row@ == restyle_row(old_row, col_start, col, style, overwrite),
            decreases stop - col,
        {
            let cell = row[col];
            let weak = match cell.style {
                ElementStyle::NoStyle => true,
                ElementStyle::Quotation => true,
                _ => false,
            };
            if overwrite || weak {
                row[col] = StyledChar { ch: cell.ch, style };
            }
            assert(row@ =~= restyle_row(old_row, col_start, (col + 1) as usize, style, overwrite));
            col += 1;
        }
        assert(row@ =~= restyle_row(old_row, col_start, col_end, style, overwrite));
        self.set_row(line, row);
        assert(self@ =~= set_style_range_spec(
            old(self)@,
            line,
            col_start,
            col_end,
            style,
            overwrite,
        ));
    }

    /// Appends the text of one row to `out`.
    fn render_row(&self, line: usize, level: LevelInner, stylesheet: &Stylesheet, out: &mut String)
        requires
            line < self@.len(),
        ensures
            final(out)@ == old(out)@ + flatten_row(self@[line as int], level, *stylesheet),
    {
        let row = &self.lines[line];
        let mut current = stylesheet.none;
        let mut i: usize = 0;
        assert(row@.skip(0) =~= row@);
        while i < row.len()
            invariant
                i <= row.len(),
                row@ == self@[line as int],
                out@ + flatten_cells(row@.skip(i as int), current, level, *stylesheet) == old(out)@
                    + flatten_row(row@, level, *stylesheet),
            decreases row.len() - i,
        {
            let cell = row[i];
            let style = cell.style.color_spec(level, stylesheet);
            let ghost before = out@;
            let ghost rest = flatten_cells(row@.skip(i + 1), style, level, *stylesheet);
            proof {
                assert(row@.skip(i as int)[0] == row@[i as int]);
                assert(row@.skip(i as int).drop_first() =~= row@.skip(i + 1));
            }
            if !style.same(&current) {
                let reset = current.render_reset();
                out.append(reset.as_str());
                let codes = style.render();
                out.append(codes.as_str());
                proof {
                    assert(out@ =~= before + reset_codes(current) + ansi_codes(style));
                }
            }
            let one: Vec<char> = vec![cell.ch];
            push_chars(out, &one);
            proof {
                assert(one@ =~= seq![cell.ch]);
                if style != current {
                    assert(out@ + rest =~= before + (reset_codes(current) + ansi_codes(style)
                        + seq![cell.ch] + rest));
                } else {
                    assert(out@ + rest =~= before + (seq![cell.ch] + rest));
                }
            }
            current = style;
            i += 1;
        }
        let ghost before = out@;
        let reset = current.render_reset();
        out.append(reset.as_str());
        proof {
            assert(row@.skip(row.len() as int) =~= Seq::<StyledChar>::empty());
        }
    }

    /// Appends the text of the canvas to `out`.
    pub fn render(&self, level: LevelInner, stylesheet: &Stylesheet, out: &mut String)
        ensures
            final(out)@ == old(out)@ + flatten_rows(self@, level, *stylesheet),
    {
        let mut i: usize = 0;
        assert(self@.skip(0) =~= self@);
        assert(out@ + Seq::<char>::empty() =~= out@);
        while i < self.lines.len()
            invariant
                i <= self.lines.len(),
                out@ + flatten_rows(self@.skip(i as int), level, *stylesheet) == old(out)@
                    + flatten_rows(self@, level, *stylesheet),
            decreases self.lines.len() - i,
        {
            let ghost before = out@;
            let ghost here = flatten_row(self@[i as int], level, *stylesheet);
            proof {
                assert(self@.skip(i as int)[0] == self@[i as int]);
                assert(self@.skip(i as int).drop_first() =~= self@.skip(i + 1));
            }
            self.render_row(i, level, stylesheet, out);
            if i != self.lines.len() - 1 {
                let newline: Vec<char> = vec!['\n'];
                push_chars(out, &newline);
                proof {
                    assert(newline@ =~= seq!['\n']);
                    let rest = flatten_rows(self@.skip(i + 1), level, *stylesheet);
                    assert(out@ + rest =~= before + (here + seq!['\n'] + rest));
                }
            } else {
                proof {
                    assert(self@.skip(i + 1) =~= Seq::<Seq<StyledChar>>::empty());
                    assert(out@ + Seq::<char>::empty() =~= out@);
                }
            }
            i += 1;
        }
        proof {
            assert(self@.skip(self.lines.len() as int) =~= Seq::<Seq<StyledChar>>::empty());
            assert(out@ + Seq::<char>::empty() =~= out@);
        }
    }
}

} // verus!

