//! Drawing a suggestion: the lines that the patches touch as they would be
//! with the patches applied, and what marks the change.

use crate::margin::larger;
use crate::renderer::glyphs::{
    col_separator_of, diff_of, file_start_of, margin_of, multi_suggestion_separator_of, repeated,
};
use crate::renderer::title::origin_text;
use crate::renderer::Renderer;
use crate::snippet::Span;
use crate::source_map::{Loc, SourceMap, SourceMapView};
use crate::splice::{
    bounded, bounded_spec, highlight_views, patch_views, shifted, PatchText, PatchView, Splice,
    SpliceView, SubstitutionHighlight,
};
use crate::style::ElementStyle;
use crate::styled_buffer::{
    append_spec, prepend_spec, putc_spec, puts_spec, saturate_len, set_style_range_spec, Rows,
    StyledBuffer,
};
use crate::text::{
    all_whitespace, byte_count, byte_len, chars_width, count_leading_whitespace, ends_with,
    ends_with_spec, find_char, find_from, is_blank, leading_whitespace, lemma_find_char,
    normalize_whitespace, normalized, same_text, saturate, slice_of,
    starts_with, starts_with_spec, text_width, trim, trim_spec,
};
use vstd::prelude::*;

verus! {

/// How a suggestion shows what it changes.
#[derive(Clone, Copy, Debug, PartialEq, Eq, Structural)]
pub enum DisplaySuggestion {
    /// Marks under the changed text.
    Underline,
    /// The old lines with a minus, the new ones with a plus.
    Diff,
    /// Only the resulting text.
    Unmarked,
    /// The new lines with a plus.
    Add,
}

/// The text `- `.
pub open spec fn minus_mark() -> Seq<char> {
    seq!['-', ' ']
}

/// The text `+ `.
pub open spec fn plus_mark() -> Seq<char> {
    seq!['+', ' ']
}

/// Three times `t`, saturating.
pub open spec fn triple(t: usize) -> usize {
    t.saturating_add(t).saturating_add(t)
}

/// Number of tabs among the first `n` characters of `s`.
pub open spec fn tabs_before(s: Seq<char>, n: int) -> nat
    decreases n,
{
    if n <= 0 || n > s.len() {
        if n > s.len() && s.len() > 0 {
            tabs_before(s, s.len() as int)
        } else {
            0
        }
    } else {
        tabs_before(s, n - 1) + if s[n - 1] == '\t' {
            1nat
        } else {
            0nat
        }
    }
}

fn tabs_before_of(s: &Vec<char>, n: usize) -> (t: usize)
    ensures
        t == tabs_before(s@, n as int),
        t <= s@.len(),
{
    let stop = if n < s.len() {
        n
    } else {
        s.len()
    };
    let mut t: usize = 0;
    let mut i: usize = 0;
    while i < stop
        invariant
            i <= stop <= s.len(),
            t <= i,
            t == tabs_before(s@, i as int),
        decreases stop - i,
    {
        if s[i] == '\t' {
            t += 1;
        }
        i += 1;
    }
    t
}

impl Renderer {
    /// The canvas after the line of source at position `idx` was written on
    /// row `row` as a line that goes away: its number, a minus, and its text.
    pub open spec fn removed_line_spec(
        &self,
        rows: Rows,
        row: usize,
        line_num: usize,
        text: Seq<char>,
        max_line_num_len: usize,
        style: ElementStyle,
    ) -> Rows {
        let r1 = puts_spec(
            rows,
            row,
            0,
            self.line_number_text(line_num, max_line_num_len),
            ElementStyle::LineNumber,
        );
        let r2 = puts_spec(r1, row, max_line_num_len.saturating_add(1), minus_mark(), ElementStyle::Removal);
        puts_spec(r2, row, max_line_num_len.saturating_add(3), normalized(text), style)
    }

    /// Writes a line of the source as a line that goes away.
    pub fn draw_removed_line(
        &self,
        buffer: &mut StyledBuffer,
        row: usize,
        line_num: usize,
        text: &Vec<char>,
        max_line_num_len: usize,
        style: ElementStyle,
    )
        ensures
            final(buffer)@ == self.removed_line_spec(
                old(buffer)@,
                row,
                line_num,
                text@,
                max_line_num_len,
                style,
            ),
    {
        let number = self.maybe_anonymized(line_num, max_line_num_len);
        buffer.puts(row, 0, &number, ElementStyle::LineNumber);
        let minus: Vec<char> = vec!['-', ' '];
        assert(minus@ =~= minus_mark());
        buffer.puts(row, max_line_num_len.saturating_add(1), &minus, ElementStyle::Removal);
        let shown = normalize_whitespace(text);
        buffer.puts(row, max_line_num_len.saturating_add(3), &shown, style);
    }

    /// The canvas and the row after the lines `file_lines[index..]` but the
    /// last were written as lines that go away, from row `row_num - 1` on.
    pub open spec fn removed_lines_spec(
        &self,
        rows: Rows,
        row_num: usize,
        sm: SourceMapView,
        file_lines: Seq<usize>,
        index: int,
        line_num: usize,
        max_line_num_len: usize,
    ) -> (Rows, usize)
        decreases file_lines.len() - 1 - index,
    {
        if index >= file_lines.len() - 1 || index < 0 {
            (rows, row_num)
        } else {
            self.removed_lines_spec(
                self.removed_line_spec(
                    rows,
                    row_num.saturating_sub(1),
                    line_num.saturating_add(index as usize),
                    sm.lines[file_lines[index] as int].line,
                    max_line_num_len,
                    ElementStyle::NoStyle,
                ),
                row_num.saturating_add(1),
                sm,
                file_lines,
                index + 1,
                line_num,
                max_line_num_len,
            )
        }
    }

    /// The canvas after the columns that `highlights[k..]` name were given
    /// the style of additions on row `row`. Columns after a tab lie three
    /// further right, since a tab is shown as four blanks.
    pub open spec fn highlights_spec(
        &self,
        rows: Rows,
        row: usize,
        highlights: Seq<SubstitutionHighlight>,
        k: int,
        line: Seq<char>,
        max_line_num_len: usize,
    ) -> Rows
        decreases highlights.len() - k,
    {
        if k >= highlights.len() || k < 0 {
            rows
        } else {
            let h = highlights[k];
            let shift = max_line_num_len.saturating_add(3).saturating_add(
                triple(tabs_before(line, h.start as int) as usize),
            );
            self.highlights_spec(
                if h.start != h.end {
                    set_style_range_spec(
                        rows,
                        row,
                        shift.saturating_add(h.start),
                        shift.saturating_add(h.end),
                        ElementStyle::Addition,
                        true,
                    )
                } else {
                    rows
                },
                row,
                highlights,
                k + 1,
                line,
                max_line_num_len,
            )
        }
    }
}

/// The lines of `s` from character `from` on: the text between line
/// breaks, without the carriage return before a line break, and without an
/// empty line after the last line break.
pub open spec fn text_lines(s: Seq<char>, from: int) -> Seq<Seq<char>>
    decreases s.len() - from,
{
    if from >= s.len() || from < 0 {
        Seq::empty()
    } else {
        let next = find_char(s, '\n', from);
        let end = if from < next < s.len() && s[next - 1] == '\r' {
            next - 1
        } else {
            next
        };
        if next >= s.len() || next < from {
            seq![s.subrange(from, end)]
        } else {
            seq![s.subrange(from, end)] + text_lines(s, next + 1)
        }
    }
}

/// The texts that `lines` hold.
pub open spec fn views(lines: Seq<Vec<char>>) -> Seq<Seq<char>> {
    Seq::new(lines.len(), |k: int| lines[k]@)
}

/// What each of `splices` holds.
pub open spec fn splice_views(splices: Seq<Splice>) -> Seq<SpliceView> {
    Seq::new(splices.len(), |k: int| splices[k]@)
}

/// The moves that `offsets` hold.
pub open spec fn moves(offsets: Seq<(usize, i128)>) -> Seq<(usize, int)> {
    Seq::new(offsets.len(), |k: int| (offsets[k].0, offsets[k].1 as int))
}

/// The lines of `s`.
pub fn lines_of(s: &Vec<char>) -> (lines: Vec<Vec<char>>)
    ensures
        views(lines@) == text_lines(s@, 0),
{
    let mut lines: Vec<Vec<char>> = Vec::new();
    let mut from: usize = 0;
    let ghost all = text_lines(s@, 0);
    while from < s.len()
        invariant
            from <= s.len(),
            all == text_lines(s@, 0),
            lines@.len() + text_lines(s@, from as int).len() == all.len(),
            forall|k: int| 0 <= k < lines@.len() ==> (#[trigger] lines@[k])@ == all[k],
            forall|k: int|
                0 <= k < text_lines(s@, from as int).len() ==> #[trigger] text_lines(s@, from as int)[k]
                    == all[lines@.len() + k],
        decreases s.len() - from,
    {
        let next = find_from(s, '\n', from);
        proof {
            lemma_find_char(s@, '\n', from as int);
        }
        let end = if from < next && next < s.len() && s[next - 1] == '\r' {
            next - 1
        } else {
            next
        };
        let ghost rest = text_lines(s@, from as int);
        let ghost after = text_lines(s@, next + 1);
        let line = slice_of(s, from, end);
        proof {
            if next >= s.len() {
                assert(after =~= Seq::<Seq<char>>::empty());
            }
            assert(rest =~= seq![s@.subrange(from as int, end as int)] + after);
            assert(rest[0] == all[lines@.len() as int]);
            assert forall|k: int| 0 <= k < after.len() implies #[trigger] after[k] == all[lines@.len()
                + 1 + k] by {
                assert(rest[k + 1] == after[k]);
            }
        }
        lines.push(line);
        from = if next < s.len() {
            next + 1
        } else {
            s.len()
        };
        proof {
            if next >= s.len() {
                assert(after =~= Seq::<Seq<char>>::empty());
            }
        }
    }
    proof {
        assert(text_lines(s@, s@.len() as int) =~= Seq::<Seq<char>>::empty());
        assert(views(lines@) =~= text_lines(s@, 0));
    }
    lines
}

/// Whether a line is an attribute: `#[` and `]` around something.
pub open spec fn is_attribute_line(line: Seq<char>) -> bool {
    starts_with_spec(trim_spec(line), seq!['#', '[']) && ends_with_spec(trim_spec(line), seq![']'])
}

fn is_attribute_line_of(line: &Vec<char>) -> (b: bool)
    ensures
        b == is_attribute_line(line@),
{
    let t = trim(line);
    let open: Vec<char> = vec!['#', '['];
    let close: Vec<char> = vec![']'];
    proof {
        assert(open@ =~= seq!['#', '[']);
        assert(close@ =~= seq![']']);
    }
    starts_with(&t, &open) && ends_with(&t, &close)
}

/// How far the columns at `column` have moved through the patches before:
/// the sum of the moves of the patches that end at or before `column`.
pub open spec fn moved_by(offsets: Seq<(usize, int)>, k: int, column: usize, acc: int) -> int
    decreases offsets.len() - k,
{
    if k >= offsets.len() || k < 0 {
        acc
    } else if column < offsets[k].0 {
        moved_by(offsets, k + 1, column, acc)
    } else {
        moved_by(offsets, k + 1, column, bounded_spec(acc + offsets[k].1))
    }
}

/// Whether one of the patches takes text away without giving it back.
pub open spec fn any_deletion(parts: Seq<PatchView>, sm: SourceMapView) -> bool {
    exists|k: int|
        0 <= k < parts.len() && ((#[trigger] parts[k]).deletion(sm) || parts[k].destructive(sm))
}

impl Renderer {
    /// How a suggestion shows what it changes: as a diff where something
    /// goes away and the result is one line; with a plus where one patch
    /// adds whole lines; with marks under the change where the result is
    /// one line and more than what was added; and otherwise not at all.
    pub open spec fn display_mode(&self, splice: SpliceView, sm: SourceMapView) -> DisplaySuggestion {
        let multiline = text_lines(splice.complete, 0).len() > 1;
        let parts = splice.parts;
        if any_deletion(parts, sm) && !multiline {
            DisplaySuggestion::Diff
        } else if parts.len() == 1 && ends_with_spec(parts[0].replacement, seq!['\n']) && trim_spec(
            parts[0].replacement,
        ) == trim_spec(splice.complete) {
            DisplaySuggestion::Add
        } else if (parts.len() != 1 || trim_spec(parts[0].replacement) != trim_spec(
            splice.complete,
        )) && !multiline {
            DisplaySuggestion::Underline
        } else {
            DisplaySuggestion::Unmarked
        }
    }

    /// How the suggestion shows what it changes; see [`Renderer::display_mode`].
    pub fn display_mode_of(&self, splice: &Splice, sm: &SourceMap, multiline: bool) -> (mode:
        DisplaySuggestion)
        requires
            sm.wf(),
            splice.parts@.len() >= 1,
            multiline == (text_lines(splice.complete@, 0).len() > 1),
        ensures
            mode == self.display_mode(splice@, sm@),
    {
        let parts = &splice.parts;
        let mut has_deletion = false;
        let mut k: usize = 0;
        while k < parts.len() && !has_deletion
            invariant
                sm.wf(),
                k <= parts.len(),
                !has_deletion ==> forall|m: int|
                    0 <= m < k ==> !((#[trigger] patch_views(parts@)[m]).deletion(sm@) || patch_views(
                        parts@,
                    )[m].destructive(sm@)),
                has_deletion ==> any_deletion(patch_views(parts@), sm@),
            decreases parts.len() - k,
        {
            if parts[k].is_deletion(sm) || parts[k].is_destructive_replacement(sm) {
                has_deletion = true;
                proof {
                    let part = patch_views(parts@)[k as int];
                    assert(part == parts@[k as int]@);
                    assert(part.deletion(sm@) || part.destructive(sm@));
                }
            }
            k += 1;
        }
        let newline: Vec<char> = vec!['\n'];
        proof {
            assert(newline@ =~= seq!['\n']);
        }
        let same = same_text(&trim(&parts[0].replacement), &trim(&splice.complete));
        if has_deletion && !multiline {
            DisplaySuggestion::Diff
        } else if parts.len() == 1 && ends_with(&parts[0].replacement, &newline) && same {
            // Lines are put in before what was there.
            DisplaySuggestion::Add
        } else if (parts.len() != 1 || !same) && !multiline {
            DisplaySuggestion::Underline
        } else {
            DisplaySuggestion::Unmarked
        }
    }

    /// The canvas and the row after a line of a suggestion was drawn.
    ///
    /// In a diff, the lines that go away come first, each with a minus, and
    /// then the new line with a plus; where the last old line is the new
    /// line, neither is shown. Otherwise the line stands after its number
    /// and a mark: a plus for a line that is all new, the mark for a change
    /// within a suggestion of several lines, and the separator else. At
    /// last the columns that patches put in take the style of additions.
    pub open spec fn code_line_spec(
        &self,
        rows: Rows,
        row_num: usize,
        highlights: Seq<SubstitutionHighlight>,
        line_num: usize,
        line_to_add: Seq<char>,
        show: DisplaySuggestion,
        max_line_num_len: usize,
        sm: SourceMapView,
        file_lines: Seq<usize>,
        is_multiline: bool,
    ) -> (Rows, usize) {
        let number = self.line_number_text(line_num, max_line_num_len);
        let mark_col = max_line_num_len.saturating_add(1);
        let text_col = max_line_num_len.saturating_add(3);
        let drawn = if show == DisplaySuggestion::Diff {
            let removed = self.removed_lines_spec(
                rows,
                row_num,
                sm,
                file_lines,
                0,
                line_num,
                max_line_num_len,
            );
            let last = sm.lines[file_lines.last() as int].line;
            if last == line_to_add {
                (removed.0, removed.1.saturating_sub(2))
            } else {
                let r2 = self.removed_line_spec(
                    removed.0,
                    removed.1.saturating_sub(1),
                    line_num.saturating_add(file_lines.len() as usize).saturating_sub(1),
                    last,
                    max_line_num_len,
                    ElementStyle::NoStyle,
                );
                if all_whitespace(line_to_add) {
                    (r2, removed.1.saturating_sub(1))
                } else {
                    let r3 = puts_spec(r2, removed.1, 0, number, ElementStyle::LineNumber);
                    let r4 = puts_spec(r3, removed.1, mark_col, plus_mark(), ElementStyle::Addition);
                    (append_spec(r4, removed.1, normalized(line_to_add), ElementStyle::NoStyle), removed.1)
                }
            }
        } else if is_multiline {
            let r1 = puts_spec(rows, row_num, 0, number, ElementStyle::LineNumber);
            let r2 = if highlights.len() == 1 && highlights[0].start == 0 && highlights[0].end
                == saturate(byte_len(line_to_add) as int) {
                puts_spec(r1, row_num, mark_col, plus_mark(), ElementStyle::Addition)
            } else if highlights.len() == 0 {
                putc_spec(r1, row_num, mark_col, col_separator_of(self.theme), ElementStyle::LineNumber)
            } else {
                puts_spec(r1, row_num, mark_col, seq![diff_of(self.theme), ' '], ElementStyle::Addition)
            };
            (puts_spec(r2, row_num, text_col, normalized(line_to_add), ElementStyle::NoStyle), row_num)
        } else if show == DisplaySuggestion::Add {
            let r1 = puts_spec(rows, row_num, 0, number, ElementStyle::LineNumber);
            let r2 = puts_spec(r1, row_num, mark_col, plus_mark(), ElementStyle::Addition);
            (append_spec(r2, row_num, normalized(line_to_add), ElementStyle::NoStyle), row_num)
        } else {
            let r1 = puts_spec(rows, row_num, 0, number, ElementStyle::LineNumber);
            let r2 = puts_spec(
                r1,
                row_num,
                mark_col,
                seq![col_separator_of(self.theme), ' '],
                ElementStyle::LineNumber,
            );
            (append_spec(r2, row_num, normalized(line_to_add), ElementStyle::NoStyle), row_num)
        };
        (
            self.highlights_spec(drawn.0, drawn.1, highlights, 0, line_to_add, max_line_num_len),
            drawn.1.saturating_add(1),
        )
    }

    /// Gives the columns that `highlights` name the style of additions.
    pub fn draw_highlights(
        &self,
        buffer: &mut StyledBuffer,
        row: usize,
        highlights: &Vec<SubstitutionHighlight>,
        line: &Vec<char>,
        max_line_num_len: usize,
    )
        ensures
            final(buffer)@ == self.highlights_spec(
                old(buffer)@,
                row,
                highlights@,
                0,
                line@,
                max_line_num_len,
            ),
    {
        let mut k: usize = 0;
        while k < highlights.len()
            invariant
                k <= highlights.len(),
                self.highlights_spec(buffer@, row, highlights@, k as int, line@, max_line_num_len)
                    == self.highlights_spec(
                    old(buffer)@,
                    row,
                    highlights@,
                    0,
                    line@,
                    max_line_num_len,
                ),
            decreases highlights.len() - k,
        {
            let h = highlights[k];
            if h.start != h.end {
                // A tab before the columns moves them by the three blanks
                // more that it is shown as.
                let tabs = tabs_before_of(line, h.start);
                let shift = max_line_num_len.saturating_add(3).saturating_add(
                    tabs.saturating_add(tabs).saturating_add(tabs),
                );
                buffer.set_style_range(
                    row,
                    shift.saturating_add(h.start),
                    shift.saturating_add(h.end),
                    ElementStyle::Addition,
                    true,
                );
            }
            k += 1;
        }
    }

    /// Draws a line of a suggestion on row `row_num`, and returns the next row.
    pub fn draw_code_line(
        &self,
        buffer: &mut StyledBuffer,
        row_num: usize,
        highlight_parts: &Vec<SubstitutionHighlight>,
        line_num: usize,
        line_to_add: &Vec<char>,
        show_code_change: DisplaySuggestion,
        max_line_num_len: usize,
        sm: &SourceMap,
        file_lines: &Vec<usize>,
        is_multiline: bool,
    ) -> (next: usize)
        requires
            file_lines@.len() >= 1,
            forall|k: int| 0 <= k < file_lines@.len() ==> (#[trigger] file_lines@[k]) < sm.lines@.len(),
        ensures
            (final(buffer)@, next) == self.code_line_spec(
                old(buffer)@,
                row_num,
                highlight_parts@,
                line_num,
                line_to_add@,
                show_code_change,
                max_line_num_len,
                sm@,
                file_lines@,
                is_multiline,
            ),
    {
        let mark_col = max_line_num_len.saturating_add(1);
        let text_col = max_line_num_len.saturating_add(3);
        let plus: Vec<char> = vec!['+', ' '];
        proof {
            assert(plus@ =~= plus_mark());
        }
        let mut row = row_num;
        if show_code_change == DisplaySuggestion::Diff {
            // Where the patch takes away several lines, all of them are shown.
            let mut index: usize = 0;
            while index < file_lines.len() - 1
                invariant
                    file_lines@.len() >= 1,
                    index <= file_lines@.len() - 1,
                    forall|k: int|
                        0 <= k < file_lines@.len() ==> (#[trigger] file_lines@[k]) < sm.lines@.len(),
                    self.removed_lines_spec(
                        buffer@,
                        row,
                        sm@,
                        file_lines@,
                        index as int,
                        line_num,
                        max_line_num_len,
                    ) == self.removed_lines_spec(
                        old(buffer)@,
                        row_num,
                        sm@,
                        file_lines@,
                        0,
                        line_num,
                        max_line_num_len,
                    ),
                decreases file_lines.len() - 1 - index,
            {
                self.draw_removed_line(
                    buffer,
                    row.saturating_sub(1),
                    line_num.saturating_add(index),
                    &sm.lines[file_lines[index]].line,
                    max_line_num_len,
                    ElementStyle::NoStyle,
                );
                row = row.saturating_add(1);
                index += 1;
            }
            // A last old line that is the new line is shown as neither.
            let last_line = &sm.lines[file_lines[file_lines.len() - 1]].line;
            if same_text(last_line, line_to_add) {
                row = row.saturating_sub(2);
            } else {
                self.draw_removed_line(
                    buffer,
                    row.saturating_sub(1),
                    line_num.saturating_add(file_lines.len()).saturating_sub(1),
                    last_line,
                    max_line_num_len,
                    ElementStyle::NoStyle,
                );
                if is_blank(line_to_add) {
                    // Only whitespace is left: the line is taken away as a whole.
                    row = row.saturating_sub(1);
                } else {
                    let number = self.maybe_anonymized(line_num, max_line_num_len);
                    buffer.puts(row, 0, &number, ElementStyle::LineNumber);
                    buffer.puts(row, mark_col, &plus, ElementStyle::Addition);
                    let shown = normalize_whitespace(line_to_add);
                    buffer.append(row, &shown, ElementStyle::NoStyle);
                }
            }
        } else if is_multiline {
            let number = self.maybe_anonymized(line_num, max_line_num_len);
            buffer.puts(row, 0, &number, ElementStyle::LineNumber);
            if highlight_parts.len() == 1 && highlight_parts[0].start == 0 && highlight_parts[0].end
                == byte_count(line_to_add) {
                buffer.puts(row, mark_col, &plus, ElementStyle::Addition);
            } else if highlight_parts.len() == 0 {
                self.draw_col_separator_no_space(buffer, row, mark_col);
            } else {
                let changed: Vec<char> = vec![self.diff(), ' '];
                assert(changed@ =~= seq![diff_of(self.theme), ' ']);
                buffer.puts(row, mark_col, &changed, ElementStyle::Addition);
            }
            let shown = normalize_whitespace(line_to_add);
            buffer.puts(row, text_col, &shown, ElementStyle::NoStyle);
        } else if show_code_change == DisplaySuggestion::Add {
            let number = self.maybe_anonymized(line_num, max_line_num_len);
            buffer.puts(row, 0, &number, ElementStyle::LineNumber);
            buffer.puts(row, mark_col, &plus, ElementStyle::Addition);
            let shown = normalize_whitespace(line_to_add);
            buffer.append(row, &shown, ElementStyle::NoStyle);
        } else {
            let number = self.maybe_anonymized(line_num, max_line_num_len);
            buffer.puts(row, 0, &number, ElementStyle::LineNumber);
            self.draw_col_separator(buffer, row, mark_col);
            let shown = normalize_whitespace(line_to_add);
            buffer.append(row, &shown, ElementStyle::NoStyle);
        }
        // What was put in is shown in the style of additions.
        self.draw_highlights(buffer, row, highlight_parts, line_to_add, max_line_num_len);
        row.saturating_add(1)
    }
}

/// Bytes of the whitespace that a replacement starts with, 0 for a
/// replacement that is whitespace only.
pub open spec fn mark_start(replacement: Seq<char>) -> usize {
    if all_whitespace(replacement) {
        0
    } else {
        saturate(byte_len(replacement.subrange(0, leading_whitespace(replacement) as int)) as int)
    }
}

/// Columns of a replacement that are marked: all of one that is whitespace
/// only, and otherwise what is left without the whitespace around it.
pub open spec fn mark_len(replacement: Seq<char>) -> usize {
    saturate(
        text_width(
            if all_whitespace(replacement) {
                replacement
            } else {
                trim_spec(replacement)
            },
        ) as int,
    )
}

impl Renderer {
    /// The canvas and the row after the first row of a suggestion was drawn
    /// on row `row_num - 1`: the start of the gutter, or between two
    /// suggestions the marker for that, and with `path` the place of the
    /// patch in that file and an empty row of the gutter.
    pub open spec fn suggestion_header_spec(
        &self,
        rows: Rows,
        row_num: usize,
        first: bool,
        path: Option<Seq<char>>,
        loc: Loc,
        max_line_num_len: usize,
        is_cont: bool,
    ) -> (Rows, usize) {
        let head = row_num.saturating_sub(1);
        let sep_col = max_line_num_len.saturating_add(1);
        let r1 = if first {
            self.col_separator_start_spec(rows, head, sep_col)
        } else {
            puts_spec(
                rows,
                head,
                sep_col,
                multi_suggestion_separator_of(self.theme),
                ElementStyle::LineNumber,
            )
        };
        match path {
            Some(p) => {
                let arrow = file_start_of(self.theme);
                let r2 = puts_spec(r1, head, 0, arrow, ElementStyle::LineNumber);
                let message = origin_text(p, Some(loc.line), Some(loc.char.saturating_add(1)));
                let r3 = if is_cont {
                    append_spec(r2, head, message, ElementStyle::LineAndColumn)
                } else {
                    puts_spec(
                        r2,
                        head,
                        larger(sep_col, saturate(byte_len(arrow) as int)),
                        message,
                        ElementStyle::LineAndColumn,
                    )
                };
                let r4 = if max_line_num_len > 0 {
                    prepend_spec(r3, head, repeated(' ', max_line_num_len as nat), ElementStyle::NoStyle)
                } else {
                    r3
                };
                (
                    putc_spec(
                        r4,
                        row_num,
                        sep_col,
                        col_separator_of(self.theme),
                        ElementStyle::LineNumber,
                    ),
                    row_num.saturating_add(1),
                )
            },
            None => (r1, row_num),
        }
    }

    fn draw_suggestion_header(
        &self,
        buffer: &mut StyledBuffer,
        row_num: usize,
        first: bool,
        path: Option<&Vec<char>>,
        loc: Loc,
        max_line_num_len: usize,
        is_cont: bool,
    ) -> (next: usize)
        ensures
            (final(buffer)@, next) == self.suggestion_header_spec(
                old(buffer)@,
                row_num,
                first,
                match path {
                    Some(p) => Some(p@),
                    None => None,
                },
                loc,
                max_line_num_len,
                is_cont,
            ),
    {
        let head = row_num.saturating_sub(1);
        let sep_col = max_line_num_len.saturating_add(1);
        if first {
            self.draw_col_separator_start(buffer, head, sep_col);
        } else {
            let sep = self.multi_suggestion_separator();
            buffer.puts(head, sep_col, &sep, ElementStyle::LineNumber);
        }
        match path {
            Some(p) => {
                let arrow = self.file_start();
                buffer.puts(head, 0, &arrow, ElementStyle::LineNumber);
                let mut message = slice_of(p, 0, p.len());
                proof {
                    assert(p@.subrange(0, p@.len() as int) =~= p@);
                }
                message.push(':');
                let digits = crate::renderer::glyphs::decimal_chars(loc.line);
                crate::splice::extend_from(&mut message, &digits, 0, digits.len());
                message.push(':');
                let column = crate::renderer::glyphs::decimal_chars(loc.char.saturating_add(1));
                crate::splice::extend_from(&mut message, &column, 0, column.len());
                proof {
                    assert(digits@.subrange(0, digits@.len() as int) =~= digits@);
                    assert(column@.subrange(0, column@.len() as int) =~= column@);
                    assert(message@ =~= origin_text(
                        p@,
                        Some(loc.line),
                        Some(loc.char.saturating_add(1)),
                    ));
                }
                if is_cont {
                    buffer.append(head, &message, ElementStyle::LineAndColumn);
                } else {
                    let col = larger(sep_col, byte_count(&arrow));
                    buffer.puts(head, col, &message, ElementStyle::LineAndColumn);
                }
                if max_line_num_len > 0 {
                    let blanks = crate::renderer::title::blanks_of(max_line_num_len);
                    buffer.prepend(head, &blanks, ElementStyle::NoStyle);
                }
                self.draw_col_separator_no_space(buffer, row_num, sep_col);
                row_num.saturating_add(1)
            },
            None => row_num,
        }
    }

    /// The canvas after the lines `line..=end` of the source were written
    /// as lines that go away, the line `start` on row `row_num - 1`.
    pub open spec fn whole_removed_spec(
        &self,
        rows: Rows,
        row_num: usize,
        sm: SourceMapView,
        line: usize,
        start: usize,
        end: usize,
        max_line_num_len: usize,
    ) -> Rows
        decreases end - line,
    {
        if line > end {
            rows
        } else {
            let text = match sm.line_text(line) {
                Some(t) => t,
                None => Seq::empty(),
            };
            let r = self.removed_line_spec(
                rows,
                row_num.saturating_sub(1).saturating_add(line.saturating_sub(start)),
                line,
                text,
                max_line_num_len,
                ElementStyle::Removal,
            );
            if line >= end {
                r
            } else {
                self.whole_removed_spec(
                    r,
                    row_num,
                    sm,
                    (line + 1) as usize,
                    start,
                    end,
                    max_line_num_len,
                )
            }
        }
    }

    fn draw_whole_removed(
        &self,
        buffer: &mut StyledBuffer,
        row_num: usize,
        sm: &SourceMap,
        start: usize,
        end: usize,
        max_line_num_len: usize,
    )
        ensures
            final(buffer)@ == self.whole_removed_spec(
                old(buffer)@,
                row_num,
                sm@,
                start,
                start,
                end,
                max_line_num_len,
            ),
    {
        if start > end {
            return ;
        }
        let mut line = start;
        let mut done = false;
        let ghost target = self.whole_removed_spec(
            old(buffer)@,
            row_num,
            sm@,
            start,
            start,
            end,
            max_line_num_len,
        );
        while !done
            invariant
                start <= line <= end,
                !done ==> self.whole_removed_spec(
                    buffer@,
                    row_num,
                    sm@,
                    line,
                    start,
                    end,
                    max_line_num_len,
                ) == target,
                done ==> buffer@ == target,
            decreases end - line, !done as int,
        {
            let empty: Vec<char> = Vec::new();
            let row = row_num.saturating_sub(1).saturating_add(line.saturating_sub(start));
            match sm.get_line(line) {
                Some(text) => self.draw_removed_line(
                    buffer,
                    row,
                    line,
                    text,
                    max_line_num_len,
                    ElementStyle::Removal,
                ),
                None => self.draw_removed_line(
                    buffer,
                    row,
                    line,
                    &empty,
                    max_line_num_len,
                    ElementStyle::Removal,
                ),
            }
            if line >= end {
                done = true;
            } else {
                line += 1;
            }
        }
    }

    /// The canvas and the row after the lines `pending[k..]`, which no
    /// patch changed, were drawn.
    pub open spec fn context_lines_spec(
        &self,
        rows: Rows,
        row_num: usize,
        pending: Seq<usize>,
        k: int,
        lines: Seq<Seq<char>>,
        start_line: usize,
        show: DisplaySuggestion,
        max_line_num_len: usize,
        sm: SourceMapView,
        file_lines: Seq<usize>,
        is_multiline: bool,
    ) -> (Rows, usize)
        decreases pending.len() - k,
    {
        if k >= pending.len() || k < 0 {
            (rows, row_num)
        } else {
            let drawn = self.code_line_spec(
                rows,
                row_num,
                Seq::empty(),
                pending[k].saturating_add(start_line),
                lines[pending[k] as int],
                show,
                max_line_num_len,
                sm,
                file_lines,
                is_multiline,
            );
            self.context_lines_spec(
                drawn.0,
                drawn.1,
                pending,
                k + 1,
                lines,
                start_line,
                show,
                max_line_num_len,
                sm,
                file_lines,
                is_multiline,
            )
        }
    }

    /// The canvas and the row after the lines between two changed lines
    /// were drawn: all of them where they are three or fewer, and else the
    /// first and the last with the marker for lines left out between them.
    pub open spec fn flush_spec(
        &self,
        rows: Rows,
        row_num: usize,
        pending: Seq<usize>,
        lines: Seq<Seq<char>>,
        start_line: usize,
        show: DisplaySuggestion,
        max_line_num_len: usize,
        sm: SourceMapView,
        file_lines: Seq<usize>,
        is_multiline: bool,
    ) -> (Rows, usize) {
        if pending.len() <= 3 {
            self.context_lines_spec(
                rows,
                row_num,
                pending,
                0,
                lines,
                start_line,
                show,
                max_line_num_len,
                sm,
                file_lines,
                is_multiline,
            )
        } else {
            let d1 = self.code_line_spec(
                rows,
                row_num,
                Seq::empty(),
                pending[0].saturating_add(start_line),
                lines[pending[0] as int],
                show,
                max_line_num_len,
                sm,
                file_lines,
                is_multiline,
            );
            let r2 = puts_spec(
                d1.0,
                d1.1,
                max_line_num_len.saturating_sub(saturate(text_width(margin_of(self.theme)) as int)),
                margin_of(self.theme),
                ElementStyle::LineNumber,
            );
            self.code_line_spec(
                r2,
                d1.1.saturating_add(1),
                Seq::empty(),
                pending.last().saturating_add(start_line),
                lines[pending.last() as int],
                show,
                max_line_num_len,
                sm,
                file_lines,
                is_multiline,
            )
        }
    }

    /// The canvas, the row, and whether an attribute was put in, after the
    /// lines `lines[pos..n]` of a suggestion were drawn. Lines that no
    /// patch changed wait in `pending` until a changed line follows; those
    /// after the last changed line are not shown.
    pub open spec fn suggested_lines_spec(
        &self,
        rows: Rows,
        row_num: usize,
        pending: Seq<usize>,
        attribute: bool,
        lines: Seq<Seq<char>>,
        highlights: Seq<Seq<SubstitutionHighlight>>,
        pos: int,
        n: int,
        start_line: usize,
        show: DisplaySuggestion,
        max_line_num_len: usize,
        sm: SourceMapView,
        file_lines: Seq<usize>,
        is_multiline: bool,
    ) -> (Rows, usize, bool)
        decreases n - pos,
    {
        if pos >= n || pos < 0 {
            (rows, row_num, attribute)
        } else if highlights[pos].len() == 0 {
            self.suggested_lines_spec(
                rows,
                row_num,
                pending.push(pos as usize),
                attribute,
                lines,
                highlights,
                pos + 1,
                n,
                start_line,
                show,
                max_line_num_len,
                sm,
                file_lines,
                is_multiline,
            )
        } else {
            let flushed = self.flush_spec(
                rows,
                row_num,
                pending,
                lines,
                start_line,
                show,
                max_line_num_len,
                sm,
                file_lines,
                is_multiline,
            );
            let drawn = self.code_line_spec(
                flushed.0,
                flushed.1,
                highlights[pos],
                (pos as usize).saturating_add(start_line),
                lines[pos],
                show,
                max_line_num_len,
                sm,
                file_lines,
                is_multiline,
            );
            self.suggested_lines_spec(
                drawn.0,
                drawn.1,
                Seq::empty(),
                attribute || (highlights[pos].len() == 1 && is_attribute_line(lines[pos])),
                lines,
                highlights,
                pos + 1,
                n,
                start_line,
                show,
                max_line_num_len,
                sm,
                file_lines,
                is_multiline,
            )
        }
    }

    /// The canvas after the bytes of the source that a patch takes away
    /// were given the style of removals, on the rows above `row_num` that
    /// show them in a diff.
    pub open spec fn removal_lines_spec(
        &self,
        rows: Rows,
        lines: Seq<Seq<char>>,
        i: int,
        row_num: usize,
        padding: usize,
        start_pos: usize,
        end_pos: usize,
    ) -> Rows
        decreases lines.len() - i,
    {
        if i >= lines.len() || i < 0 {
            rows
        } else {
            let line_bytes = saturate(byte_len(normalized(lines[i])) as int);
            let row = row_num.saturating_sub(2).saturating_sub((lines.len() - i - 1) as usize);
            let from = if i == 0 {
                padding.saturating_add(start_pos)
            } else {
                padding
            };
            let to = if i == 0 {
                padding.saturating_add(start_pos).saturating_add(line_bytes)
            } else if i == lines.len() - 1 {
                padding.saturating_add(end_pos)
            } else {
                padding.saturating_add(line_bytes)
            };
            self.removal_lines_spec(
                set_style_range_spec(rows, row, from, to, ElementStyle::Removal, true),
                lines,
                i + 1,
                row_num,
                padding,
                start_pos,
                end_pos,
            )
        }
    }

    /// The canvas after one patch was marked, and where the patch ends and
    /// how far it moves what follows. With marks under the change, the
    /// replacement is underlined with a plus where it only adds and with
    /// the mark for a change else. In a diff, what goes away is coloured.
    pub open spec fn part_mark_spec(
        &self,
        rows: Rows,
        row_num: usize,
        part: PatchView,
        offsets: Seq<(usize, int)>,
        show: DisplaySuggestion,
        sm: SourceMapView,
        max_line_num_len: usize,
    ) -> (Rows, (usize, int)) {
        let snippet = match sm.snippet_of(part.span) {
            Some(t) => t,
            None => Seq::empty(),
        };
        let locs = sm.locations_of(part.span);
        let start_pos = locs.0.display;
        let end_pos = locs.1.display;
        let offset = moved_by(offsets, 0, start_pos, 0);
        let underline_start = saturate(
            start_pos.saturating_add(mark_start(part.replacement)) + offset,
        );
        let underline_end = underline_start.saturating_add(mark_len(part.replacement));
        let padding = max_line_num_len.saturating_add(3);
        let r1 = if show == DisplaySuggestion::Underline {
            puts_spec(
                rows,
                row_num,
                padding.saturating_add(underline_start),
                repeated(
                    if part.addition(sm) {
                        '+'
                    } else {
                        diff_of(self.theme)
                    },
                    padding.saturating_add(underline_end).saturating_sub(
                        padding.saturating_add(underline_start),
                    ) as nat,
                ),
                ElementStyle::Addition,
            )
        } else {
            rows
        };
        let r2 = if show == DisplaySuggestion::Diff {
            let removed = text_lines(snippet, 0);
            if removed.len() > 0 && row_num > removed.len() {
                self.removal_lines_spec(r1, removed, 0, row_num, padding, start_pos, end_pos)
            } else {
                set_style_range_spec(
                    r1,
                    row_num.saturating_sub(2),
                    padding.saturating_add(start_pos),
                    padding.saturating_add(end_pos),
                    ElementStyle::Removal,
                    true,
                )
            }
        } else {
            r1
        };
        (
            r2,
            (
                end_pos,
                bounded_spec(saturate(text_width(part.replacement) as int) - (end_pos - start_pos)),
            ),
        )
    }

    /// The canvas after the patches `parts[k..]` were marked.
    pub open spec fn part_marks_spec(
        &self,
        rows: Rows,
        row_num: usize,
        parts: Seq<PatchView>,
        k: int,
        offsets: Seq<(usize, int)>,
        show: DisplaySuggestion,
        sm: SourceMapView,
        max_line_num_len: usize,
    ) -> Rows
        decreases parts.len() - k,
    {
        if k >= parts.len() || k < 0 {
            rows
        } else {
            let marked = self.part_mark_spec(
                rows,
                row_num,
                parts[k],
                offsets,
                show,
                sm,
                max_line_num_len,
            );
            self.part_marks_spec(
                marked.0,
                row_num,
                parts,
                k + 1,
                offsets.push(marked.1),
                show,
                sm,
                max_line_num_len,
            )
        }
    }

    /// The canvas and the row after the lines of a suggestion were drawn
    /// from row `row` on: the lines that the patches touch as they would be
    /// with the patches applied, or, where nothing is left, the lines that
    /// go away; and after an attribute that was put in, the line that follows.
    pub open spec fn suggestion_body_spec(
        &self,
        rows: Rows,
        row: usize,
        splice: SpliceView,
        sm: SourceMapView,
        show: DisplaySuggestion,
        max_line_num_len: usize,
    ) -> (Rows, usize) {
        let lines = text_lines(splice.complete, 0);
        let is_multiline = lines.len() > 1;
        let span = splice.parts[0].span;
        let locs = sm.locations_of(span);
        let file_lines = sm.lines_of_span(span);
        let removed = if lines.len() == 0 {
            (
                self.whole_removed_spec(
                    rows,
                    row,
                    sm,
                    locs.0.line,
                    locs.0.line,
                    locs.1.line,
                    max_line_num_len,
                ),
                row.saturating_add(locs.1.line.saturating_sub(locs.0.line)),
            )
        } else {
            (rows, row)
        };
        let n: int = if lines.len() < splice.highlights.len() {
            lines.len() as int
        } else {
            splice.highlights.len() as int
        };
        let shown = self.suggested_lines_spec(
            removed.0,
            removed.1,
            Seq::empty(),
            false,
            lines,
            splice.highlights,
            0,
            n,
            locs.0.line,
            show,
            max_line_num_len,
            sm,
            file_lines,
            is_multiline,
        );
        let last_pos: usize = if n > 0 {
            (n - 1) as usize
        } else {
            0
        };
        if show == DisplaySuggestion::Add && shown.2 {
            match sm.line_text(locs.0.line) {
                Some(text) => self.code_line_spec(
                    shown.0,
                    shown.1,
                    Seq::empty(),
                    locs.0.line.saturating_add(last_pos).saturating_add(1),
                    normalized(text),
                    DisplaySuggestion::Unmarked,
                    max_line_num_len,
                    sm,
                    sm.lines_of_span(Span { start: span.end, end: span.end }),
                    is_multiline,
                ),
                None => (shown.0, shown.1),
            }
        } else {
            (shown.0, shown.1)
        }
    }

    /// The canvas and the row after the end of a suggestion was drawn: the
    /// marks for what changes, and then the end of the gutter, or the
    /// marker for lines left out where not all lines are shown.
    pub open spec fn suggestion_end_spec(
        &self,
        rows: Rows,
        row: usize,
        splice: SpliceView,
        sm: SourceMapView,
        show: DisplaySuggestion,
        max_line_num_len: usize,
    ) -> (Rows, usize) {
        let lines = text_lines(splice.complete, 0);
        let marked = if show != DisplaySuggestion::Unmarked {
            (
                self.part_marks_spec(
                    rows,
                    row,
                    splice.parts,
                    0,
                    Seq::empty(),
                    show,
                    sm,
                    max_line_num_len,
                ),
                row.saturating_add(1),
            )
        } else {
            (rows, row)
        };
        if lines.len() > splice.highlights.len() + 1 {
            (
                puts_spec(
                    marked.0,
                    marked.1,
                    max_line_num_len.saturating_sub(saturate(text_width(margin_of(self.theme)) as int)),
                    margin_of(self.theme),
                    ElementStyle::LineNumber,
                ),
                marked.1,
            )
        } else {
            let end = if show != DisplaySuggestion::Unmarked {
                marked.1.saturating_sub(1)
            } else {
                marked.1
            };
            (
                self.col_separator_end_spec(marked.0, end, max_line_num_len.saturating_add(1)),
                end.saturating_add(1),
            )
        }
    }

    /// The canvas and the row after one suggestion was drawn from row
    /// `row_num - 1` on: its first row, its lines, and its end.
    pub open spec fn suggestion_spec(
        &self,
        rows: Rows,
        row_num: usize,
        first: bool,
        splice: SpliceView,
        sm: SourceMapView,
        path: Option<Seq<char>>,
        max_line_num_len: usize,
        is_cont: bool,
    ) -> (Rows, usize) {
        let head = self.suggestion_header_spec(
            rows,
            row_num,
            first,
            path,
            sm.locations_of(splice.parts[0].span).0,
            max_line_num_len,
            is_cont,
        );
        let show = self.display_mode(splice, sm);
        let body = self.suggestion_body_spec(
            head.0,
            if show == DisplaySuggestion::Diff {
                head.1.saturating_add(1)
            } else {
                head.1
            },
            splice,
            sm,
            show,
            max_line_num_len,
        );
        self.suggestion_end_spec(body.0, body.1, splice, sm, show, max_line_num_len)
    }

    /// The canvas after the suggestions `splices[i..]` were drawn.
    pub open spec fn suggestions_spec(
        &self,
        rows: Rows,
        row_num: usize,
        splices: Seq<SpliceView>,
        i: int,
        sm: SourceMapView,
        path: Option<Seq<char>>,
        max_line_num_len: usize,
        is_cont: bool,
    ) -> Rows
        decreases splices.len() - i,
    {
        if i >= splices.len() || i < 0 {
            rows
        } else {
            let drawn = self.suggestion_spec(
                rows,
                row_num,
                i == 0,
                splices[i],
                sm,
                path,
                max_line_num_len,
                is_cont,
            );
            self.suggestions_spec(
                drawn.0,
                drawn.1,
                splices,
                i + 1,
                sm,
                path,
                max_line_num_len,
                is_cont,
            )
        }
    }
}

impl Renderer {
    fn draw_context_lines(
        &self,
        buffer: &mut StyledBuffer,
        row_num: usize,
        pending: &Vec<usize>,
        lines: &Vec<Vec<char>>,
        start_line: usize,
        show: DisplaySuggestion,
        max_line_num_len: usize,
        sm: &SourceMap,
        file_lines: &Vec<usize>,
        is_multiline: bool,
    ) -> (next: usize)
        requires
            file_lines@.len() >= 1,
            forall|k: int| 0 <= k < file_lines@.len() ==> (#[trigger] file_lines@[k]) < sm.lines@.len(),
            forall|k: int| 0 <= k < pending@.len() ==> (#[trigger] pending@[k]) < lines@.len(),
        ensures
            (final(buffer)@, next) == self.context_lines_spec(
                old(buffer)@,
                row_num,
                pending@,
                0,
                views(lines@),
                start_line,
                show,
                max_line_num_len,
                sm@,
                file_lines@,
                is_multiline,
            ),
    {
        let mut row = row_num;
        let mut k: usize = 0;
        let none: Vec<SubstitutionHighlight> = Vec::new();
        while k < pending.len()
            invariant
                k <= pending.len(),
                none@.len() == 0,
                file_lines@.len() >= 1,
                forall|k: int|
                    0 <= k < file_lines@.len() ==> (#[trigger] file_lines@[k]) < sm.lines@.len(),
                forall|k: int| 0 <= k < pending@.len() ==> (#[trigger] pending@[k]) < lines@.len(),
                self.context_lines_spec(
                    buffer@,
                    row,
                    pending@,
                    k as int,
                    views(lines@),
                    start_line,
                    show,
                    max_line_num_len,
                    sm@,
                    file_lines@,
                    is_multiline,
                ) == self.context_lines_spec(
                    old(buffer)@,
                    row_num,
                    pending@,
                    0,
                    views(lines@),
                    start_line,
                    show,
                    max_line_num_len,
                    sm@,
                    file_lines@,
                    is_multiline,
                ),
            decreases pending.len() - k,
        {
            proof {
                assert(none@ =~= Seq::<SubstitutionHighlight>::empty());
            }
            row = self.draw_code_line(
                buffer,
                row,
                &none,
                pending[k].saturating_add(start_line),
                &lines[pending[k]],
                show,
                max_line_num_len,
                sm,
                file_lines,
                is_multiline,
            );
            k += 1;
        }
        row
    }

    fn draw_flush(
        &self,
        buffer: &mut StyledBuffer,
        row_num: usize,
        pending: &Vec<usize>,
        lines: &Vec<Vec<char>>,
        start_line: usize,
        show: DisplaySuggestion,
        max_line_num_len: usize,
        sm: &SourceMap,
        file_lines: &Vec<usize>,
        is_multiline: bool,
    ) -> (next: usize)
        requires
            file_lines@.len() >= 1,
            forall|k: int| 0 <= k < file_lines@.len() ==> (#[trigger] file_lines@[k]) < sm.lines@.len(),
            forall|k: int| 0 <= k < pending@.len() ==> (#[trigger] pending@[k]) < lines@.len(),
        ensures
            (final(buffer)@, next) == self.flush_spec(
                old(buffer)@,
                row_num,
                pending@,
                views(lines@),
                start_line,
                show,
                max_line_num_len,
                sm@,
                file_lines@,
                is_multiline,
            ),
    {
        if pending.len() <= 3 {
            // With three lines or fewer, nothing is gained by leaving one out.
            return self.draw_context_lines(
                buffer,
                row_num,
                pending,
                lines,
                start_line,
                show,
                max_line_num_len,
                sm,
                file_lines,
                is_multiline,
            );
        }
        let none: Vec<SubstitutionHighlight> = Vec::new();
        proof {
            assert(none@ =~= Seq::<SubstitutionHighlight>::empty());
        }
        let first = pending[0];
        let last = pending[pending.len() - 1];
        let row = self.draw_code_line(
            buffer,
            row_num,
            &none,
            first.saturating_add(start_line),
            &lines[first],
            show,
            max_line_num_len,
            sm,
            file_lines,
            is_multiline,
        );
        let placeholder = self.margin();
        let padding = chars_width(&placeholder);
        buffer.puts(
            row,
            max_line_num_len.saturating_sub(padding),
            &placeholder,
            ElementStyle::LineNumber,
        );
        self.draw_code_line(
            buffer,
            row.saturating_add(1),
            &none,
            last.saturating_add(start_line),
            &lines[last],
            show,
            max_line_num_len,
            sm,
            file_lines,
            is_multiline,
        )
    }

    fn draw_suggested_lines(
        &self,
        buffer: &mut StyledBuffer,
        row_num: usize,
        lines: &Vec<Vec<char>>,
        highlights: &Vec<Vec<SubstitutionHighlight>>,
        start_line: usize,
        show: DisplaySuggestion,
        max_line_num_len: usize,
        sm: &SourceMap,
        file_lines: &Vec<usize>,
        is_multiline: bool,
    ) -> (out: (usize, bool))
        requires
            file_lines@.len() >= 1,
            forall|k: int| 0 <= k < file_lines@.len() ==> (#[trigger] file_lines@[k]) < sm.lines@.len(),
        ensures
            (final(buffer)@, out.0, out.1) == self.suggested_lines_spec(
                old(buffer)@,
                row_num,
                Seq::empty(),
                false,
                views(lines@),
                highlight_views(highlights@),
                0,
                if lines@.len() < highlights@.len() {
                    lines@.len() as int
                } else {
                    highlights@.len() as int
                },
                start_line,
                show,
                max_line_num_len,
                sm@,
                file_lines@,
                is_multiline,
            ),
    {
        let n = if lines.len() < highlights.len() {
            lines.len()
        } else {
            highlights.len()
        };
        let mut row = row_num;
        let mut attribute = false;
        // The lines that no patch changed, until it is known whether they are shown.
        let mut pending: Vec<usize> = Vec::new();
        let mut pos: usize = 0;
        while pos < n
            invariant
                pos <= n,
                n <= lines@.len(),
                n <= highlights@.len(),
                file_lines@.len() >= 1,
                forall|k: int|
                    0 <= k < file_lines@.len() ==> (#[trigger] file_lines@[k]) < sm.lines@.len(),
                forall|k: int| 0 <= k < pending@.len() ==> (#[trigger] pending@[k]) < lines@.len(),
                self.suggested_lines_spec(
                    buffer@,
                    row,
                    pending@,
                    attribute,
                    views(lines@),
                    highlight_views(highlights@),
                    pos as int,
                    n as int,
                    start_line,
                    show,
                    max_line_num_len,
                    sm@,
                    file_lines@,
                    is_multiline,
                ) == self.suggested_lines_spec(
                    old(buffer)@,
                    row_num,
                    Seq::empty(),
                    false,
                    views(lines@),
                    highlight_views(highlights@),
                    0,
                    n as int,
                    start_line,
                    show,
                    max_line_num_len,
                    sm@,
                    file_lines@,
                    is_multiline,
                ),
            decreases n - pos,
        {
            if highlights[pos].len() == 0 {
                pending.push(pos);
            } else {
                if highlights[pos].len() == 1 && is_attribute_line_of(&lines[pos]) {
                    attribute = true;
                }
                row = self.draw_flush(
                    buffer,
                    row,
                    &pending,
                    lines,
                    start_line,
                    show,
                    max_line_num_len,
                    sm,
                    file_lines,
                    is_multiline,
                );
                pending = Vec::new();
                row = self.draw_code_line(
                    buffer,
                    row,
                    &highlights[pos],
                    pos.saturating_add(start_line),
                    &lines[pos],
                    show,
                    max_line_num_len,
                    sm,
                    file_lines,
                    is_multiline,
                );
            }
            pos += 1;
        }
        (row, attribute)
    }

    fn draw_removal_lines(
        &self,
        buffer: &mut StyledBuffer,
        lines: &Vec<Vec<char>>,
        row_num: usize,
        padding: usize,
        start_pos: usize,
        end_pos: usize,
    )
        ensures
            final(buffer)@ == self.removal_lines_spec(
                old(buffer)@,
                views(lines@),
                0,
                row_num,
                padding,
                start_pos,
                end_pos,
            ),
    {
        let n = lines.len();
        let mut i: usize = 0;
        while i < n
            invariant
                i <= n,
                n == lines@.len(),
                self.removal_lines_spec(
                    buffer@,
                    views(lines@),
                    i as int,
                    row_num,
                    padding,
                    start_pos,
                    end_pos,
                ) == self.removal_lines_spec(
                    old(buffer)@,
                    views(lines@),
                    0,
                    row_num,
                    padding,
                    start_pos,
                    end_pos,
                ),
            decreases n - i,
        {
            let shown = normalize_whitespace(&lines[i]);
            let line_bytes = byte_count(&shown);
            let row = row_num.saturating_sub(2).saturating_sub(n - i - 1);
            // The first line is coloured from the start of the patch, the
            // last up to its end, and every other as a whole.
            let from = if i == 0 {
                padding.saturating_add(start_pos)
            } else {
                padding
            };
            let to = if i == 0 {
                padding.saturating_add(start_pos).saturating_add(line_bytes)
            } else if i == n - 1 {
                padding.saturating_add(end_pos)
            } else {
                padding.saturating_add(line_bytes)
            };
            buffer.set_style_range(row, from, to, ElementStyle::Removal, true);
            i += 1;
        }
    }

    fn draw_part_mark(
        &self,
        buffer: &mut StyledBuffer,
        row_num: usize,
        part: &PatchText,
        offsets: &Vec<(usize, i128)>,
        show: DisplaySuggestion,
        sm: &SourceMap,
        max_line_num_len: usize,
    ) -> (moved: (usize, i128))
        requires
            sm.wf(),
            forall|k: int|
                0 <= k < offsets@.len() ==> -(usize::MAX as int) <= (#[trigger] offsets@[k]).1
                    <= usize::MAX as int,
        ensures
            -(usize::MAX as int) <= moved.1 <= usize::MAX as int,
            (final(buffer)@, (moved.0, moved.1 as int)) == self.part_mark_spec(
                old(buffer)@,
                row_num,
                part@,
                moves(offsets@),
                show,
                sm@,
                max_line_num_len,
            ),
    {
        let (span_start, span_end) = sm.span_to_locations(part.span);
        let start_pos = span_start.display;
        let end_pos = span_end.display;
        // Whitespace around the replacement is not marked, unless the
        // replacement is nothing else.
        let only_whitespace = is_blank(&part.replacement);
        let start = if only_whitespace {
            0
        } else {
            let blank = count_leading_whitespace(&part.replacement);
            byte_count(&slice_of(&part.replacement, 0, blank))
        };
        let sub_len = if only_whitespace {
            chars_width(&part.replacement)
        } else {
            chars_width(&trim(&part.replacement))
        };
        let mut offset: i128 = 0;
        let mut k: usize = 0;
        while k < offsets.len()
            invariant
                k <= offsets.len(),
                -(usize::MAX as int) <= offset <= usize::MAX as int,
                forall|k: int|
                    0 <= k < offsets@.len() ==> -(usize::MAX as int) <= (#[trigger] offsets@[k]).1
                        <= usize::MAX as int,
                moved_by(moves(offsets@), k as int, start_pos, offset as int) == moved_by(
                    moves(offsets@),
                    0,
                    start_pos,
                    0,
                ),
            decreases offsets.len() - k,
        {
            proof {
                assert(moves(offsets@)[k as int] == (offsets@[k as int].0, offsets@[k as int].1 as int));
            }
            if !(start_pos < offsets[k].0) {
                offset = bounded(offset + offsets[k].1);
            }
            k += 1;
        }
        let underline_start = shifted(start_pos.saturating_add(start), offset);
        let underline_end = underline_start.saturating_add(sub_len);
        let padding = max_line_num_len.saturating_add(3);
        if show == DisplaySuggestion::Underline {
            // An addition is underlined with `+`, a replacement with the
            // mark for a change.
            let ch = if part.is_addition(sm) {
                '+'
            } else {
                self.diff()
            };
            self.draw_range(
                buffer,
                ch,
                row_num,
                padding.saturating_add(underline_start),
                padding.saturating_add(underline_end),
                ElementStyle::Addition,
            );
        }
        if show == DisplaySuggestion::Diff {
            let empty: Vec<char> = Vec::new();
            let removed = match sm.span_to_snippet(part.span) {
                Some(snippet) => lines_of(&snippet),
                None => lines_of(&empty),
            };
            if removed.len() > 0 && row_num > removed.len() {
                // The patch takes away text on several lines.
                self.draw_removal_lines(buffer, &removed, row_num, padding, start_pos, end_pos);
            } else {
                buffer.set_style_range(
                    row_num.saturating_sub(2),
                    padding.saturating_add(start_pos),
                    padding.saturating_add(end_pos),
                    ElementStyle::Removal,
                    true,
                );
            }
        }
        // What follows the patch moves by what the replacement is wider
        // than what it replaces.
        let full_sub_len = chars_width(&part.replacement);
        (end_pos, bounded(full_sub_len as i128 - (end_pos as i128 - start_pos as i128)))
    }

    fn draw_part_marks(
        &self,
        buffer: &mut StyledBuffer,
        row_num: usize,
        parts: &Vec<PatchText>,
        show: DisplaySuggestion,
        sm: &SourceMap,
        max_line_num_len: usize,
    )
        requires
            sm.wf(),
        ensures
            final(buffer)@ == self.part_marks_spec(
                old(buffer)@,
                row_num,
                patch_views(parts@),
                0,
                Seq::empty(),
                show,
                sm@,
                max_line_num_len,
            ),
    {
        let mut offsets: Vec<(usize, i128)> = Vec::new();
        let mut k: usize = 0;
        proof {
            assert(moves(offsets@) =~= Seq::<(usize, int)>::empty());
        }
        while k < parts.len()
            invariant
                sm.wf(),
                k <= parts.len(),
                forall|k: int|
                    0 <= k < offsets@.len() ==> -(usize::MAX as int) <= (#[trigger] offsets@[k]).1
                        <= usize::MAX as int,
                self.part_marks_spec(
                    buffer@,
                    row_num,
                    patch_views(parts@),
                    k as int,
                    moves(offsets@),
                    show,
                    sm@,
                    max_line_num_len,
                ) == self.part_marks_spec(
                    old(buffer)@,
                    row_num,
                    patch_views(parts@),
                    0,
                    Seq::empty(),
                    show,
                    sm@,
                    max_line_num_len,
                ),
            decreases parts.len() - k,
        {
            let ghost before = offsets@;
            let moved = self.draw_part_mark(
                buffer,
                row_num,
                &parts[k],
                &offsets,
                show,
                sm,
                max_line_num_len,
            );
            offsets.push(moved);
            proof {
                assert(moves(offsets@) =~= moves(before).push((moved.0, moved.1 as int)));
            }
            k += 1;
        }
    }

    fn draw_suggestion_body(
        &self,
        buffer: &mut StyledBuffer,
        row_num: usize,
        splice: &Splice,
        lines: &Vec<Vec<char>>,
        sm: &SourceMap,
        show: DisplaySuggestion,
        max_line_num_len: usize,
    ) -> (next: usize)
        requires
            sm.wf(),
            splice.parts@.len() >= 1,
            views(lines@) == text_lines(splice.complete@, 0),
        ensures
            (final(buffer)@, next) == self.suggestion_body_spec(
                old(buffer)@,
                row_num,
                splice@,
                sm@,
                show,
                max_line_num_len,
            ),
    {
        let is_multiline = lines.len() > 1;
        let span = splice.parts[0].span;
        let (line_start, line_end) = sm.span_to_locations(span);
        let file_lines = sm.span_to_lines(span);
        let mut row = row_num;
        if lines.len() == 0 {
            // The suggestion is to take whole lines away.
            self.draw_whole_removed(
                buffer,
                row,
                sm,
                line_start.line,
                line_end.line,
                max_line_num_len,
            );
            row = row.saturating_add(line_end.line.saturating_sub(line_start.line));
        }
        let n = if lines.len() < splice.highlights.len() {
            lines.len()
        } else {
            splice.highlights.len()
        };
        let (after, attribute) = self.draw_suggested_lines(
            buffer,
            row,
            lines,
            &splice.highlights,
            line_start.line,
            show,
            max_line_num_len,
            sm,
            &file_lines,
            is_multiline,
        );
        row = after;
        let last_pos = if n > 0 {
            n - 1
        } else {
            0
        };
        if show == DisplaySuggestion::Add && attribute {
            // An attribute is put in on a line of its own: the line that
            // follows is shown too, so that it is seen what the attribute
            // applies to.
            let following = sm.span_to_lines(Span { start: span.end, end: span.end });
            if let Some(line) = sm.get_line(line_start.line) {
                let shown = normalize_whitespace(line);
                let none: Vec<SubstitutionHighlight> = Vec::new();
                proof {
                    assert(none@ =~= Seq::<SubstitutionHighlight>::empty());
                }
                row = self.draw_code_line(
                    buffer,
                    row,
                    &none,
                    line_start.line.saturating_add(last_pos).saturating_add(1),
                    &shown,
                    DisplaySuggestion::Unmarked,
                    max_line_num_len,
                    sm,
                    &following,
                    is_multiline,
                );
            }
        }
        row
    }

    fn draw_suggestion_end(
        &self,
        buffer: &mut StyledBuffer,
        row_num: usize,
        splice: &Splice,
        line_count: usize,
        sm: &SourceMap,
        show: DisplaySuggestion,
        max_line_num_len: usize,
    ) -> (next: usize)
        requires
            sm.wf(),
            line_count == text_lines(splice.complete@, 0).len(),
        ensures
            (final(buffer)@, next) == self.suggestion_end_spec(
                old(buffer)@,
                row_num,
                splice@,
                sm@,
                show,
                max_line_num_len,
            ),
    {
        let mut row = row_num;
        if show != DisplaySuggestion::Unmarked {
            self.draw_part_marks(buffer, row, &splice.parts, show, sm, max_line_num_len);
            row = row.saturating_add(1);
        }
        if line_count > splice.highlights.len().saturating_add(1) {
            // Some lines are left out: say so.
            let placeholder = self.margin();
            let padding = chars_width(&placeholder);
            buffer.puts(
                row,
                max_line_num_len.saturating_sub(padding),
                &placeholder,
                ElementStyle::LineNumber,
            );
            row
        } else {
            let end = if show != DisplaySuggestion::Unmarked {
                row.saturating_sub(1)
            } else {
                row
            };
            self.draw_col_separator_end(buffer, end, max_line_num_len.saturating_add(1));
            end.saturating_add(1)
        }
    }

    /// Draws one suggestion from row `row_num - 1` on, and returns the row
    /// after it.
    pub fn draw_suggestion(
        &self,
        buffer: &mut StyledBuffer,
        row_num: usize,
        first: bool,
        splice: &Splice,
        sm: &SourceMap,
        path: Option<&Vec<char>>,
        max_line_num_len: usize,
        is_cont: bool,
    ) -> (next: usize)
        requires
            sm.wf(),
            splice.parts@.len() >= 1,
        ensures
            (final(buffer)@, next) == self.suggestion_spec(
                old(buffer)@,
                row_num,
                first,
                splice@,
                sm@,
                match path {
                    Some(p) => Some(p@),
                    None => None,
                },
                max_line_num_len,
                is_cont,
            ),
    {
        let lines = lines_of(&splice.complete);
        let (line_start, _) = sm.span_to_locations(splice.parts[0].span);
        let mut row = self.draw_suggestion_header(
            buffer,
            row_num,
            first,
            path,
            line_start,
            max_line_num_len,
            is_cont,
        );
        let show = self.display_mode_of(splice, sm, lines.len() > 1);
        if show == DisplaySuggestion::Diff {
            row = row.saturating_add(1);
        }
        row = self.draw_suggestion_body(buffer, row, splice, &lines, sm, show, max_line_num_len);
        self.draw_suggestion_end(buffer, row, splice, lines.len(), sm, show, max_line_num_len)
    }

    /// Draws the suggestions `splices` below what the canvas holds; after
    /// another suggestion, the first row is the last row of that one.
    pub fn draw_suggestions(
        &self,
        buffer: &mut StyledBuffer,
        splices: &Vec<Splice>,
        sm: &SourceMap,
        path: Option<&Vec<char>>,
        max_line_num_len: usize,
        is_cont: bool,
    )
        requires
            sm.wf(),
            forall|i: int| 0 <= i < splices@.len() ==> (#[trigger] splices@[i]).parts@.len() >= 1,
        ensures
            final(buffer)@ == self.suggestions_spec(
                old(buffer)@,
                saturate_len(old(buffer)@.len()).saturating_add(
                    if is_cont {
                        0usize
                    } else {
                        1usize
                    },
                ),
                splice_views(splices@),
                0,
                sm@,
                match path {
                    Some(p) => Some(p@),
                    None => None,
                },
                max_line_num_len,
                is_cont,
            ),
    {
        let buffer_offset = buffer.num_lines();
        let mut row_num = buffer_offset.saturating_add(
            if is_cont {
                0
            } else {
                1
            },
        );
        let ghost first_row = row_num;
        let ghost shown = match path {
            Some(p) => Some(p@),
            None => None,
        };
        let mut i: usize = 0;
        while i < splices.len()
            invariant
                sm.wf(),
                i <= splices.len(),
                shown == match path {
                    Some(p) => Some(p@),
                    None => None,
                },
                forall|i: int| 0 <= i < splices@.len() ==> (#[trigger] splices@[i]).parts@.len() >= 1,
                self.suggestions_spec(
                    buffer@,
                    row_num,
                    splice_views(splices@),
                    i as int,
                    sm@,
                    shown,
                    max_line_num_len,
                    is_cont,
                ) == self.suggestions_spec(
                    old(buffer)@,
                    first_row,
                    splice_views(splices@),
                    0,
                    sm@,
                    shown,
                    max_line_num_len,
                    is_cont,
                ),
            decreases splices.len() - i,
        {
            row_num = self.draw_suggestion(
                buffer,
                row_num,
                i == 0,
                &splices[i],
                sm,
                path,
                max_line_num_len,
                is_cont,
            );
            i += 1;
        }
    }
}

} // verus!
