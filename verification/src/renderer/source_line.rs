//! Drawing one line of source with the annotations on it.

use crate::margin::Margin;
use crate::renderer::glyphs::{col_separator_of, margin_of, underline_parts};
use crate::renderer::line_annotation::{
    ann_views, AnnotatedLineInfo, LineAnn, LineAnnotation, LineAnnotationType,
};
use crate::renderer::order::{order_of, stable_order, Key};
use crate::renderer::placement::{draw_order, draw_order_of, positions, positions_of};
use crate::renderer::strokes::{draw_vertical, vertical_spec, LineFrame, Placed};
use crate::renderer::Renderer;
use crate::style::ElementStyle;
use crate::styled_buffer::{putc_spec, puts_spec, saturate_len, Rows, StyledBuffer};
use crate::text::{
    all_whitespace, char_width, char_width_spec, chars_width, is_whitespace,
    lemma_text_width_push, normalize_whitespace, normalized, saturate, slice_of, text_width,
};
use vstd::prelude::*;

verus! {

/// Number of characters at the start of `s` that together are at most `w`
/// columns wide.
pub open spec fn fit(s: Seq<char>, w: int) -> nat
    decreases s.len(),
{
    if s.len() == 0 || char_width_spec(s[0]) > w {
        0
    } else {
        1 + fit(s.drop_first(), w - char_width_spec(s[0]))
    }
}

/// What fits is no wider than the room it was fitted into.
pub proof fn lemma_fit(s: Seq<char>, w: int)
    requires
        0 <= w,
    ensures
        fit(s, w) <= s.len(),
        text_width(s.take(fit(s, w) as int)) <= w,
    decreases s.len(),
{
    if s.len() == 0 || char_width_spec(s[0]) > w {
        assert(s.take(0) =~= Seq::<char>::empty());
    } else {
        let rest = s.drop_first();
        let k = fit(rest, w - char_width_spec(s[0])) as int;
        lemma_fit(rest, w - char_width_spec(s[0]));
        assert(s.take(k + 1) =~= seq![s[0]] + rest.take(k));
        crate::text::lemma_text_width_concat(seq![s[0]], rest.take(k));
        assert(seq![s[0]].drop_last() =~= Seq::<char>::empty());
        reveal_with_fuel(text_width, 2);
    }
}

/// Number of characters at the start of `s` that are needed to fill
/// `padding` columns: all of `s` where it is narrower.
pub open spec fn lead(s: Seq<char>, padding: int) -> nat
    decreases s.len(),
{
    if s.len() == 0 {
        0
    } else if char_width_spec(s[0]) >= padding {
        1
    } else {
        1 + lead(s.drop_first(), padding - char_width_spec(s[0]))
    }
}

/// Number of characters at the end of `s` that are needed to fill `padding`
/// columns: all of `s` where it is narrower.
pub open spec fn trail(s: Seq<char>, padding: int) -> nat
    decreases s.len(),
{
    if s.len() == 0 {
        0
    } else if char_width_spec(s.last()) >= padding {
        1
    } else {
        1 + trail(s.drop_last(), padding - char_width_spec(s.last()))
    }
}

/// The part of the line `source` that the window of `margin` shows: the
/// characters left of the window are skipped, and of the rest as many are
/// taken as fit into the window.
pub open spec fn shown_code(source: Seq<char>, margin: Margin) -> Seq<char> {
    let line_len = saturate(text_width(source) as int);
    let left = margin.left_spec(line_len);
    let right = margin.right_spec(line_len);
    let rest = source.skip(fit(source, left as int) as int);
    rest.take(fit(rest, right.saturating_sub(left) as int) as int)
}

/// The shown part of a line is never wider than the window.
pub proof fn lemma_shown_code_fits(source: Seq<char>, margin: Margin)
    ensures
        ({
            let line_len = saturate(text_width(source) as int);
            text_width(shown_code(source, margin)) <= margin.right_spec(line_len).saturating_sub(
                margin.left_spec(line_len),
            )
        }),
{
    let line_len = saturate(text_width(source) as int);
    let left = margin.left_spec(line_len);
    let right = margin.right_spec(line_len);
    lemma_fit(source, left as int);
    let rest = source.skip(fit(source, left as int) as int);
    lemma_fit(rest, right.saturating_sub(left) as int);
}

/// The width invariant: of a line of an excerpt whose annotated spans fit
/// into the columns at hand for source, no more is shown than fits into
/// these columns.
pub proof fn lemma_shown_code_fits_terminal(
    source: Seq<char>,
    whitespace_left: usize,
    span_left: usize,
    span_right: usize,
    label_right: usize,
    column_width: usize,
    max_line_len: usize,
)
    requires
        Margin::new_spec(
            whitespace_left,
            span_left,
            span_right,
            label_right,
            column_width,
            max_line_len,
        ).spans_fit(),
    ensures
        text_width(
            shown_code(
                source,
                Margin::new_spec(
                    whitespace_left,
                    span_left,
                    span_right,
                    label_right,
                    column_width,
                    max_line_len,
                ),
            ),
        ) <= column_width,
{
    let margin = Margin::new_spec(
        whitespace_left,
        span_left,
        span_right,
        label_right,
        column_width,
        max_line_len,
    );
    crate::margin::lemma_window_fits(
        whitespace_left,
        span_left,
        span_right,
        label_right,
        column_width,
        max_line_len,
        saturate(text_width(source) as int),
    );
    lemma_shown_code_fits(source, margin);
}

/// Number of characters at the start of `s[from..]` that together are at
/// most `w` columns wide.
fn fit_from(s: &Vec<char>, from: usize, w: usize) -> (n: usize)
    requires
        from <= s.len(),
    ensures
        n == fit(s@.skip(from as int), w as int),
        from + n <= s.len(),
{
    let mut i: usize = from;
    let mut room: usize = w;
    let ghost all = s@.skip(from as int);
    proof {
        assert(all.skip(0) =~= all);
    }
    while i < s.len() && char_width(s[i]) <= room
        invariant
            from <= i <= s.len(),
            all == s@.skip(from as int),
            fit(all, w as int) == (i - from) + fit(all.skip(i - from), room as int),
        decreases s.len() - i,
    {
        proof {
            assert(all.skip(i - from)[0] == s@[i as int]);
            assert(all.skip(i - from).drop_first() =~= all.skip(i - from + 1));
        }
        room = room - char_width(s[i]);
        i += 1;
    }
    proof {
        if i < s.len() {
            assert(all.skip(i - from)[0] == s@[i as int]);
        }
    }
    i - from
}

/// The characters at the start of `code` that are needed to fill `padding`
/// columns, and how wide they are.
fn lead_of(code: &Vec<char>, padding: usize) -> (r: (usize, usize))
    ensures
        r.0 == lead(code@, padding as int),
        r.0 <= code@.len(),
        r.1 == saturate(text_width(code@.take(r.0 as int)) as int),
{
    let mut k: usize = 0;
    let mut width: usize = 0;
    let mut done = false;
    proof {
        assert(code@.skip(0) =~= code@);
        assert(code@.take(0) =~= Seq::<char>::empty());
    }
    while k < code.len() && !done
        invariant
            k <= code.len(),
            width == saturate(text_width(code@.take(k as int)) as int),
            !done ==> lead(code@, padding as int) == k + lead(
                code@.skip(k as int),
                padding - width,
            ),
            done ==> lead(code@, padding as int) == k,
        decreases code.len() - k,
    {
        proof {
            assert(code@.skip(k as int)[0] == code@[k as int]);
            assert(code@.skip(k as int).drop_first() =~= code@.skip(k + 1));
            assert(code@.take(k + 1) =~= code@.take(k as int).push(code@[k as int]));
            lemma_text_width_push(code@.take(k as int), code@[k as int]);
        }
        width = width.saturating_add(char_width(code[k]));
        k += 1;
        if width >= padding {
            done = true;
        }
    }
    (k, width)
}

/// Number of characters at the end of `code` that are needed to fill
/// `padding` columns.
fn trail_of(code: &Vec<char>, padding: usize) -> (n: usize)
    ensures
        n == trail(code@, padding as int),
        n <= code@.len(),
{
    let mut back: usize = 0;
    let mut width: usize = 0;
    let mut done = false;
    proof {
        assert(code@.take(code@.len() as int) =~= code@);
    }
    while back < code.len() && !done
        invariant
            back <= code.len(),
            width <= padding,
            !done ==> trail(code@, padding as int) == back + trail(
                code@.take(code@.len() - back),
                padding - width,
            ),
            done ==> trail(code@, padding as int) == back,
        decreases code.len() - back,
    {
        proof {
            let part = code@.take(code@.len() - back);
            assert(part.last() == code@[code@.len() - back - 1]);
            assert(part.drop_last() =~= code@.take(code@.len() - back - 1));
        }
        let w = char_width(code[code.len() - back - 1]);
        if w >= padding - width {
            done = true;
        } else {
            width = width + w;
        }
        back += 1;
    }
    back
}

impl Renderer {
    /// The canvas after a line of source was drawn on row `line_offset`, and
    /// the column of the line that is shown first.
    ///
    /// The line number stands at the very left, the separator two columns
    /// before `width_offset`, and the shown part of the line from
    /// `code_offset` on. Where the window of `margin` cuts the line, the
    /// marker for a cut stands in place of the first or the last columns of
    /// the shown part.
    pub open spec fn draw_line_spec(
        &self,
        rows: Rows,
        source: Seq<char>,
        line_index: usize,
        line_offset: usize,
        width_offset: usize,
        code_offset: usize,
        max_line_num_len: usize,
        margin: Margin,
    ) -> (Rows, usize) {
        let line_len = saturate(text_width(source) as int);
        let left = margin.left_spec(line_len);
        let right = margin.right_spec(line_len);
        let code = shown_code(source, margin);
        let placeholder = margin_of(self.theme);
        let padding = saturate(text_width(placeholder) as int);
        let chars_taken: int = if margin.cut_left() {
            lead(code, padding as int) as int
        } else {
            0
        };
        let width_taken = saturate(text_width(code.take(chars_taken)) as int);
        let first = if margin.cut_left() && width_taken > padding {
            left.saturating_sub((width_taken - padding) as usize)
        } else {
            left
        };
        let r1 = if margin.cut_left() {
            puts_spec(rows, line_offset, code_offset, placeholder, ElementStyle::LineNumber)
        } else {
            rows
        };
        let code_col = code_offset.saturating_add(width_taken);
        let r2 = puts_spec(r1, line_offset, code_col, code.skip(chars_taken), ElementStyle::Quotation);
        let r3 = if line_len > right {
            puts_spec(
                r2,
                line_offset,
                code_col.saturating_add((code.len() - chars_taken) as usize).saturating_sub(
                    trail(code, padding as int) as usize,
                ),
                placeholder,
                ElementStyle::LineNumber,
            )
        } else {
            r2
        };
        let r4 = puts_spec(
            r3,
            line_offset,
            0,
            self.line_number_text(line_index, max_line_num_len),
            ElementStyle::LineNumber,
        );
        let r5 = putc_spec(
            r4,
            line_offset,
            width_offset.saturating_sub(2),
            col_separator_of(self.theme),
            ElementStyle::LineNumber,
        );
        (r5, first)
    }

    /// Draws the line `source_string` of source on row `line_offset`, with
    /// its number and the separator, and returns the column of the line
    /// that is shown first.
    pub fn draw_line(
        &self,
        buffer: &mut StyledBuffer,
        source_string: &Vec<char>,
        line_index: usize,
        line_offset: usize,
        width_offset: usize,
        code_offset: usize,
        max_line_num_len: usize,
        margin: Margin,
    ) -> (first: usize)
        ensures
            (final(buffer)@, first) == self.draw_line_spec(
                old(buffer)@,
                source_string@,
                line_index,
                line_offset,
                width_offset,
                code_offset,
                max_line_num_len,
                margin,
            ),
    {
        let line_len = chars_width(source_string);
        let mut left = margin.left(line_len);
        let right = margin.right(line_len);
        // On long lines, only the part within the window is shown.
        let skipped = fit_from(source_string, 0, left);
        proof {
            assert(source_string@.skip(0) =~= source_string@);
        }
        let taken = fit_from(source_string, skipped, right.saturating_sub(left));
        let code = slice_of(source_string, skipped, skipped + taken);
        proof {
            assert(code@ =~= shown_code(source_string@, margin));
        }
        let placeholder = self.margin();
        let padding = chars_width(&placeholder);
        let mut width_taken: usize = 0;
        let mut chars_taken: usize = 0;
        proof {
            assert(code@.take(0) =~= Seq::<char>::empty());
        }
        if margin.was_cut_left() {
            // Something was cut off at the start: make it clear.
            let (chars, width) = lead_of(&code, padding);
            chars_taken = chars;
            width_taken = width;
            if width_taken > padding {
                left = left.saturating_sub(width_taken - padding);
            }
            buffer.puts(line_offset, code_offset, &placeholder, ElementStyle::LineNumber);
        }
        let rest = slice_of(&code, chars_taken, code.len());
        proof {
            assert(rest@ =~= code@.skip(chars_taken as int));
        }
        let code_col = code_offset.saturating_add(width_taken);
        buffer.puts(line_offset, code_col, &rest, ElementStyle::Quotation);
        if line_len > right {
            // Something was cut off at the end: make it clear.
            let back = trail_of(&code, padding);
            buffer.puts(
                line_offset,
                code_col.saturating_add(rest.len()).saturating_sub(back),
                &placeholder,
                ElementStyle::LineNumber,
            );
        }
        let number = self.maybe_anonymized(line_index, max_line_num_len);
        buffer.puts(line_offset, 0, &number, ElementStyle::LineNumber);
        self.draw_col_separator_no_space(buffer, line_offset, width_offset.saturating_sub(2));
        left
    }
}

/// The kinds of strokes, in the order in which they are drawn.
#[derive(Clone, Copy, Debug)]
pub enum Stroke {
    Horizontal,
    Vertical,
    Label,
    Underline,
    Cut,
}

/// The pair of a row and an annotation.
pub open spec fn placed(pos: usize, ann: usize) -> Placed {
    Placed { pos, ann }
}

/// The bracket that an end of a bracket belongs to, and the style of its labels.
pub open spec fn mark(depth: usize, style: ElementStyle) -> (usize, ElementStyle) {
    (depth, style)
}

/// Whether the first `m` characters of `s`, or all of it, are whitespace.
fn prefix_blank(s: &Vec<char>, m: usize) -> (b: bool)
    ensures
        b == all_whitespace(
            s@.take(
                if m < s@.len() {
                    m as int
                } else {
                    s@.len() as int
                },
            ),
        ),
{
    let stop = if m < s.len() {
        m
    } else {
        s.len()
    };
    let mut i: usize = 0;
    while i < stop
        invariant
            i <= stop <= s.len(),
            stop == if m < s.len() {
                m
            } else {
                s.len()
            },
            all_whitespace(s@.take(i as int)),
        decreases stop - i,
    {
        if !is_whitespace(s[i]) {
            proof {
                assert(s@.take(stop as int)[i as int] == s@[i as int]);
                assert(!crate::text::is_whitespace_spec(s@.take(stop as int)[i as int]));
            }
            return false;
        }
        proof {
            assert forall|k: int| 0 <= k < i + 1 implies crate::text::is_whitespace_spec(
                #[trigger] s@.take(i + 1)[k],
            ) by {
                if k < i {
                    assert(s@.take(i as int)[k] == s@.take(i + 1)[k]);
                }
            }
        }
        i += 1;
    }
    true
}

/// Whether every annotation from `k` on is the start of a bracket with
/// nothing but whitespace before it, or a bracket passing by.
pub open spec fn short_start(anns: Seq<LineAnn>, source: Seq<char>, k: int) -> bool
    decreases anns.len() - k,
{
    if k >= anns.len() || k < 0 {
        true
    } else {
        match anns[k].annotation_type {
            LineAnnotationType::MultilineStart(_) => all_whitespace(
                source.take(
                    if anns[k].start.display < source.len() {
                        anns[k].start.display as int
                    } else {
                        source.len() as int
                    },
                ),
            ) && short_start(anns, source, k + 1),
            LineAnnotationType::MultilineLine(_) => short_start(anns, source, k + 1),
            _ => false,
        }
    }
}

/// The brackets that start on the line, from annotation `k` on.
pub open spec fn short_marks(theme: crate::renderer::OutputTheme, anns: Seq<LineAnn>, k: int) -> Seq<
    (usize, ElementStyle),
>
    decreases anns.len() - k,
{
    if k >= anns.len() || k < 0 {
        Seq::empty()
    } else {
        match anns[k].annotation_type {
            LineAnnotationType::MultilineStart(depth) => seq![
                mark(depth, underline_parts(theme, anns[k].primary()).style),
            ] + short_marks(theme, anns, k + 1),
            _ => short_marks(theme, anns, k + 1),
        }
    }
}

/// The brackets and the styles of the labels of the ends of brackets among `items`.
pub open spec fn marks_from(items: Seq<Placed>, anns: Seq<LineAnn>, k: int) -> Seq<
    (usize, ElementStyle),
>
    decreases items.len() - k,
{
    if k >= items.len() || k < 0 {
        Seq::empty()
    } else {
        let ann = anns[items[k].ann as int];
        let style = if ann.primary() {
            ElementStyle::LabelPrimary
        } else {
            ElementStyle::LabelSecondary
        };
        match ann.annotation_type {
            LineAnnotationType::MultilineStart(depth) => seq![mark(depth, style)] + marks_from(
                items,
                anns,
                k + 1,
            ),
            LineAnnotationType::MultilineEnd(depth) => seq![mark(depth, style)] + marks_from(
                items,
                anns,
                k + 1,
            ),
            _ => marks_from(items, anns, k + 1),
        }
    }
}

/// Whether every annotation is a bracket passing by.
pub open spec fn all_lines(anns: Seq<LineAnn>) -> bool {
    forall|k: int| 0 <= k < anns.len() ==> (#[trigger] anns[k]).line_placeholder()
}

/// Whether every annotation is the start of a bracket.
pub open spec fn all_starts(anns: Seq<LineAnn>) -> bool {
    forall|k: int| 0 <= k < anns.len() ==> (#[trigger] anns[k]).annotation_type is MultilineStart
}

/// The largest of `s[..k]`, 0 where there is none.
pub open spec fn max_of(s: Seq<usize>, k: int) -> usize
    decreases k,
{
    if k <= 0 {
        0
    } else {
        let rest = max_of(s, k - 1);
        if s[k - 1] > rest {
            s[k - 1]
        } else {
            rest
        }
    }
}

/// The rows counted from the last one instead of the first.
pub open spec fn inverted(position: Seq<usize>) -> Seq<usize> {
    Seq::new(
        position.len(),
        |k: int| max_of(position, position.len() as int).saturating_sub(position[k]),
    )
}

/// The annotations in drawing order with their rows.
pub open spec fn items_of(position: Seq<usize>, order: Seq<usize>) -> Seq<Placed> {
    Seq::new(order.len(), |k: int| placed(position[k], order[k]))
}

/// The keys that underlines are drawn in the order of: the widest
/// annotation first, and of two equally wide ones the primary one last.
pub open spec fn width_keys(items: Seq<Placed>, anns: Seq<LineAnn>) -> Seq<Key> {
    Seq::new(
        items.len(),
        |k: int|
            (
                (usize::MAX - anns[items[k].ann as int].width()) as usize,
                if anns[items[k].ann as int].primary() {
                    1usize
                } else {
                    0usize
                },
            ),
    )
}

/// `items` in the order `order`.
pub open spec fn reordered(items: Seq<Placed>, order: Seq<usize>) -> Seq<Placed> {
    Seq::new(order.len(), |m: int| items[order[m] as int])
}

impl Renderer {
    /// One stroke of one annotation.
    pub open spec fn stroke_step(
        &self,
        kind: Stroke,
        rows: Rows,
        frame: LineFrame,
        overlapped: bool,
        pos: usize,
        ann: LineAnn,
    ) -> Rows {
        match kind {
            Stroke::Horizontal => self.horizontal_step(rows, frame, pos, ann),
            Stroke::Vertical => self.vertical_step(rows, frame, pos, ann),
            Stroke::Label => self.label_step(rows, frame, pos, ann),
            Stroke::Underline => self.underline_step(rows, frame, pos, ann),
            Stroke::Cut => self.cut_step(rows, frame, overlapped, ann),
        }
    }

    /// The strokes of one kind of the annotations `items[k..]`, one after the other.
    pub open spec fn strokes_from(
        &self,
        kind: Stroke,
        rows: Rows,
        frame: LineFrame,
        overlap: Seq<bool>,
        items: Seq<Placed>,
        anns: Seq<LineAnn>,
        k: int,
    ) -> Rows
        decreases items.len() - k,
    {
        if k >= items.len() || k < 0 {
            rows
        } else {
            self.strokes_from(
                kind,
                self.stroke_step(kind, rows, frame, overlap[k], items[k].pos, anns[items[k].ann as int]),
                frame,
                overlap,
                items,
                anns,
                k + 1,
            )
        }
    }

    /// Draws the strokes of one kind of all of `items`.
    pub fn draw_strokes(
        &self,
        kind: Stroke,
        buffer: &mut StyledBuffer,
        frame: LineFrame,
        overlap: &Vec<bool>,
        items: &Vec<Placed>,
        anns: &Vec<LineAnnotation>,
    )
        requires
            overlap@.len() == items@.len(),
            forall|k: int| 0 <= k < items@.len() ==> (#[trigger] items@[k]).ann < anns@.len(),
        ensures
            final(buffer)@ == self.strokes_from(
                kind,
                old(buffer)@,
                frame,
                overlap@,
                items@,
                ann_views(anns@),
                0,
            ),
    {
        let mut k: usize = 0;
        while k < items.len()
            invariant
                k <= items.len(),
                overlap@.len() == items@.len(),
                forall|k: int| 0 <= k < items@.len() ==> (#[trigger] items@[k]).ann < anns@.len(),
                self.strokes_from(kind, buffer@, frame, overlap@, items@, ann_views(anns@), k as int)
                    == self.strokes_from(kind, old(buffer)@, frame, overlap@, items@, ann_views(anns@), 0),
            decreases items.len() - k,
        {
            let item = items[k];
            let ann = &anns[item.ann];
            match kind {
                Stroke::Horizontal => self.draw_horizontal_step(buffer, frame, item.pos, ann),
                Stroke::Vertical => self.draw_vertical_step(buffer, frame, item.pos, ann),
                Stroke::Label => self.draw_label_step(buffer, frame, item.pos, ann),
                Stroke::Underline => self.draw_underline_step(buffer, frame, item.pos, ann),
                Stroke::Cut => self.draw_cut_step(buffer, frame, overlap[k], ann),
            }
            k += 1;
        }
    }

    /// The starts of brackets from annotation `k` on, each drawn as one
    /// mark in the gutter on the line of source itself.
    pub open spec fn short_draw(&self, rows: Rows, frame: LineFrame, anns: Seq<LineAnn>, k: int) -> Rows
        decreases anns.len() - k,
    {
        if k >= anns.len() || k < 0 {
            rows
        } else {
            match anns[k].annotation_type {
                LineAnnotationType::MultilineStart(depth) => {
                    let uline = underline_parts(self.theme, anns[k].primary());
                    self.short_draw(
                        putc_spec(
                            rows,
                            frame.line_offset,
                            frame.gutter_of(depth),
                            uline.multiline_whole_line,
                            uline.style,
                        ),
                        frame,
                        anns,
                        k + 1,
                    )
                },
                _ => self.short_draw(rows, frame, anns, k + 1),
            }
        }
    }

    /// The canvas after the annotations `anns` of a line were drawn below
    /// the line, which `draw_line` has drawn on row `frame.line_offset`
    /// already, and the brackets that start or end on the line.
    ///
    /// Where every annotation is the start of a bracket with only whitespace
    /// before it, each is one mark in the gutter. Otherwise the separator is
    /// drawn for as many rows as the labels need, then for the annotations
    /// from right to left their horizontal strokes, their vertical strokes
    /// and their labels, and then from the widest to the narrowest their
    /// underlines, so that a narrow annotation shows within a wide one.
    pub open spec fn annotations_spec(
        &self,
        rows: Rows,
        source: Seq<char>,
        anns: Seq<LineAnn>,
        frame: LineFrame,
        close_window: bool,
    ) -> (Rows, Seq<(usize, ElementStyle)>) {
        if short_start(anns, source, 0) {
            (self.short_draw(rows, frame, anns, 0), short_marks(self.theme, anns, 0))
        } else if all_lines(anns) {
            (rows, Seq::empty())
        } else {
            let order = draw_order(anns);
            let found = positions(anns, order);
            let turned = all_starts(anns);
            let position = if turned {
                inverted(found.position)
            } else {
                found.position
            };
            let line_len0 = if found.line_len != 0 {
                found.line_len.saturating_add(1)
            } else {
                0
            };
            let line_len = if turned {
                line_len0.saturating_sub(1)
            } else {
                line_len0
            };
            let frame = LineFrame { line_len, ..frame };
            let items = items_of(position, order);
            let sep_col = frame.width_offset.saturating_sub(2);
            let r1 = vertical_spec(
                rows,
                sep_col,
                frame.row_of(1),
                frame.row_of(line_len).saturating_add(2),
                col_separator_of(self.theme),
                ElementStyle::LineNumber,
            );
            let r2 = if close_window {
                self.col_separator_end_spec(r1, frame.row_of(line_len).saturating_add(1), sep_col)
            } else {
                r1
            };
            let r3 = self.strokes_from(Stroke::Horizontal, r2, frame, found.overlap, items, anns, 0);
            let r4 = self.strokes_from(Stroke::Vertical, r3, frame, found.overlap, items, anns, 0);
            let r5 = self.strokes_from(Stroke::Label, r4, frame, found.overlap, items, anns, 0);
            let by_width = reordered(
                items,
                stable_order(width_keys(items, anns), items.len(), false),
            );
            let r6 = self.strokes_from(Stroke::Underline, r5, frame, found.overlap, by_width, anns, 0);
            let r7 = self.strokes_from(Stroke::Cut, r6, frame, found.overlap, by_width, anns, 0);
            (r7, marks_from(by_width, anns, 0))
        }
    }

    /// The canvas after a line of source and its annotations were drawn
    /// below what the canvas holds, and the brackets that start or end on
    /// the line. A line with the number 0 is not drawn.
    pub open spec fn source_line_spec(
        &self,
        rows: Rows,
        line: Seq<char>,
        line_index: usize,
        anns: Seq<LineAnn>,
        width_offset: usize,
        code_offset: usize,
        max_line_num_len: usize,
        margin: Margin,
        close_window: bool,
    ) -> (Rows, Seq<(usize, ElementStyle)>) {
        if line_index == 0 {
            (rows, Seq::empty())
        } else {
            let source = normalized(line);
            let line_offset = saturate_len(rows.len());
            let drawn = self.draw_line_spec(
                rows,
                source,
                line_index,
                line_offset,
                width_offset,
                code_offset,
                max_line_num_len,
                margin,
            );
            self.annotations_spec(
                drawn.0,
                source,
                anns,
                LineFrame {
                    line_offset,
                    width_offset,
                    code_offset,
                    left: drawn.1,
                    line_len: 0,
                    term_width: margin.term_width,
                },
                close_window,
            )
        }
    }

    /// Draws the starts of brackets as marks in the gutter.
    fn draw_short_start(&self, buffer: &mut StyledBuffer, frame: LineFrame, anns: &Vec<LineAnnotation>) -> (marks:
        Vec<(usize, ElementStyle)>)
        ensures
            final(buffer)@ == self.short_draw(old(buffer)@, frame, ann_views(anns@), 0),
            marks@ == short_marks(self.theme, ann_views(anns@), 0),
    {
        let mut marks: Vec<(usize, ElementStyle)> = Vec::new();
        let mut k: usize = 0;
        proof {
            assert(marks@ + short_marks(self.theme, ann_views(anns@), 0) =~= short_marks(self.theme, ann_views(anns@), 0));
        }
        while k < anns.len()
            invariant
                k <= anns.len(),
                self.short_draw(buffer@, frame, ann_views(anns@), k as int) == self.short_draw(
                    old(buffer)@,
                    frame,
                    ann_views(anns@),
                    0,
                ),
                marks@ + short_marks(self.theme, ann_views(anns@), k as int) == short_marks(self.theme, ann_views(anns@), 0),
            decreases anns.len() - k,
        {
            let ghost before = marks@;
            if let LineAnnotationType::MultilineStart(depth) = anns[k].annotation_type {
                let uline = self.underline(anns[k].is_primary());
                buffer.putc(
                    frame.line_offset,
                    frame.gutter(depth),
                    uline.multiline_whole_line,
                    uline.style,
                );
                marks.push((depth, uline.style));
                proof {
                    assert(marks@ + short_marks(self.theme, ann_views(anns@), k + 1) =~= before + (seq![
                        mark(depth, uline.style),
                    ] + short_marks(self.theme, ann_views(anns@), k + 1)));
                }
            }
            k += 1;
        }
        proof {
            assert(marks@ + short_marks(self.theme, ann_views(anns@), anns@.len() as int) =~= marks@);
        }
        marks
    }

    /// Draws the annotations of a line below the line.
    pub fn draw_annotations(
        &self,
        buffer: &mut StyledBuffer,
        source: &Vec<char>,
        anns: &Vec<LineAnnotation>,
        frame: LineFrame,
        close_window: bool,
    ) -> (marks: Vec<(usize, ElementStyle)>)
        ensures
            (final(buffer)@, marks@) == self.annotations_spec(
                old(buffer)@,
                source@,
                ann_views(anns@),
                frame,
                close_window,
            ),
    {
        // Where only brackets start on the line, and nothing but
        // whitespace stands before them, a mark in the gutter is enough.
        let mut short = true;
        let mut k: usize = 0;
        while k < anns.len() && short
            invariant
                k <= anns.len(),
                short ==> short_start(ann_views(anns@), source@, 0) == short_start(ann_views(anns@), source@, k as int),
                !short ==> !short_start(ann_views(anns@), source@, 0),
            decreases anns.len() - k,
        {
            match anns[k].annotation_type {
                LineAnnotationType::MultilineStart(_) => {
                    if !prefix_blank(source, anns[k].start.display) {
                        short = false;
                    }
                },
                LineAnnotationType::MultilineLine(_) => {},
                _ => {
                    short = false;
                },
            }
            k += 1;
        }
        if short {
            return self.draw_short_start(buffer, frame, anns);
        }
        let order = draw_order_of(anns);
        let found = positions_of(anns, &order);
        // With nothing but brackets passing by, only the source is shown.
        let mut lines_only = true;
        let mut starts_only = true;
        let mut k: usize = 0;
        while k < anns.len()
            invariant
                k <= anns.len(),
                lines_only == all_lines(ann_views(anns@).take(k as int)),
                starts_only == all_starts(ann_views(anns@).take(k as int)),
            decreases anns.len() - k,
        {
            proof {
                let a = ann_views(anns@).take(k as int);
                let b = ann_views(anns@).take(k + 1);
                assert(b[k as int] == anns@[k as int]@);
                assert(forall|m: int| 0 <= m < k ==> a[m] == b[m]);
                if all_lines(b) {
                    assert forall|m: int| 0 <= m < a.len() implies (#[trigger] a[m]).line_placeholder() by {
                        assert(b[m].line_placeholder());
                    }
                }
                if all_starts(b) {
                    assert forall|m: int| 0 <= m < a.len() implies (
                    #[trigger] a[m]).annotation_type is MultilineStart by {
                        assert(b[m].annotation_type is MultilineStart);
                    }
                }
            }
            if !anns[k].is_line() {
                lines_only = false;
            }
            match anns[k].annotation_type {
                LineAnnotationType::MultilineStart(_) => {},
                _ => {
                    starts_only = false;
                },
            }
            k += 1;
        }
        proof {
            assert(ann_views(anns@).take(anns@.len() as int) =~= ann_views(anns@));
        }
        if lines_only {
            return Vec::new();
        }
        let n = order.len();
        let mut line_len = if found.line_len != 0 {
            found.line_len.saturating_add(1)
        } else {
            0
        };
        let mut max_pos: usize = 0;
        let mut k: usize = 0;
        while k < n
            invariant
                k <= n,
                n == found.position@.len(),
                max_pos == max_of(found.position@, k as int),
            decreases n - k,
        {
            if found.position[k] > max_pos {
                max_pos = found.position[k];
            }
            k += 1;
        }
        if starts_only {
            // Brackets that all start here are turned around, so that they
            // cross each other as little as possible, and the row for a
            // label is saved.
            line_len = line_len.saturating_sub(1);
        }
        let mut items: Vec<Placed> = Vec::new();
        let ghost position = if starts_only {
            inverted(found.position@)
        } else {
            found.position@
        };
        let mut k: usize = 0;
        while k < n
            invariant
                k <= n,
                n == found.position@.len(),
                n == order@.len(),
                max_pos == max_of(found.position@, n as int),
                position == if starts_only {
                    inverted(found.position@)
                } else {
                    found.position@
                },
                items@ == items_of(position, order@).take(k as int),
            decreases n - k,
        {
            let pos = if starts_only {
                max_pos.saturating_sub(found.position[k])
            } else {
                found.position[k]
            };
            items.push(Placed { pos, ann: order[k] });
            proof {
                assert(items@ =~= items_of(position, order@).take(k + 1));
            }
            k += 1;
        }
        proof {
            assert(items@ =~= items_of(position, order@));
        }
        let frame = LineFrame {
            line_offset: frame.line_offset,
            width_offset: frame.width_offset,
            code_offset: frame.code_offset,
            left: frame.left,
            line_len,
            term_width: frame.term_width,
        };
        let sep_col = frame.width_offset.saturating_sub(2);
        draw_vertical(
            buffer,
            sep_col,
            frame.row(1),
            frame.row(line_len).saturating_add(2),
            self.col_separator(),
            ElementStyle::LineNumber,
        );
        if close_window {
            self.draw_col_separator_end(buffer, frame.row(line_len).saturating_add(1), sep_col);
        }
        self.draw_strokes(Stroke::Horizontal, buffer, frame, &found.overlap, &items, anns);
        self.draw_strokes(Stroke::Vertical, buffer, frame, &found.overlap, &items, anns);
        self.draw_strokes(Stroke::Label, buffer, frame, &found.overlap, &items, anns);
        // From the widest to the narrowest, so that the narrow ones show.
        let mut keys: Vec<Key> = Vec::new();
        let mut k: usize = 0;
        while k < n
            invariant
                k <= n,
                n == items@.len(),
                forall|m: int| 0 <= m < items@.len() ==> (#[trigger] items@[m]).ann < anns@.len(),
                keys@ == width_keys(items@, ann_views(anns@)).take(k as int),
            decreases n - k,
        {
            let ann = &anns[items[k].ann];
            keys.push(
                (
                    usize::MAX - ann.len(),
                    if ann.is_primary() {
                        1
                    } else {
                        0
                    },
                ),
            );
            proof {
                assert(keys@ =~= width_keys(items@, ann_views(anns@)).take(k + 1));
            }
            k += 1;
        }
        proof {
            assert(keys@ =~= width_keys(items@, ann_views(anns@)));
        }
        let order2 = order_of(&keys, false);
        let mut by_width: Vec<Placed> = Vec::new();
        let mut m: usize = 0;
        while m < n
            invariant
                m <= n,
                n == items@.len(),
                n == order2@.len(),
                forall|i: int| 0 <= i < order2@.len() ==> (#[trigger] order2@[i]) < n,
                forall|m: int| 0 <= m < items@.len() ==> (#[trigger] items@[m]).ann < anns@.len(),
                by_width@ == reordered(items@, order2@).take(m as int),
                forall|i: int| 0 <= i < by_width@.len() ==> (#[trigger] by_width@[i]).ann < anns@.len(),
            decreases n - m,
        {
            by_width.push(items[order2[m]]);
            proof {
                assert(by_width@ =~= reordered(items@, order2@).take(m + 1));
            }
            m += 1;
        }
        proof {
            assert(by_width@ =~= reordered(items@, order2@));
        }
        self.draw_strokes(Stroke::Underline, buffer, frame, &found.overlap, &by_width, anns);
        self.draw_strokes(Stroke::Cut, buffer, frame, &found.overlap, &by_width, anns);
        let mut marks: Vec<(usize, ElementStyle)> = Vec::new();
        let mut k: usize = 0;
        proof {
            assert(marks@ + marks_from(by_width@, ann_views(anns@), 0) =~= marks_from(by_width@, ann_views(anns@), 0));
        }
        while k < n
            invariant
                k <= n,
                n == by_width@.len(),
                forall|i: int| 0 <= i < by_width@.len() ==> (#[trigger] by_width@[i]).ann < anns@.len(),
                marks@ + marks_from(by_width@, ann_views(anns@), k as int) == marks_from(by_width@, ann_views(anns@), 0),
            decreases n - k,
        {
            let ann = &anns[by_width[k].ann];
            let style = if ann.is_primary() {
                ElementStyle::LabelPrimary
            } else {
                ElementStyle::LabelSecondary
            };
            let ghost before = marks@;
            let ghost rest = marks_from(by_width@, ann_views(anns@), k + 1);
            match ann.annotation_type {
                LineAnnotationType::MultilineStart(depth) => {
                    marks.push((depth, style));
                    proof {
                        assert(marks@ + rest =~= before + (seq![mark(depth, style)] + rest));
                    }
                },
                LineAnnotationType::MultilineEnd(depth) => {
                    marks.push((depth, style));
                    proof {
                        assert(marks@ + rest =~= before + (seq![mark(depth, style)] + rest));
                    }
                },
                _ => {},
            }
            k += 1;
        }
        proof {
            assert(marks@ + marks_from(by_width@, ann_views(anns@), n as int) =~= marks@);
        }
        marks
    }

    /// Draws a line of source and its annotations below what the canvas
    /// holds, and returns the brackets that start or end on the line.
    pub fn render_source_line(
        &self,
        line_info: &AnnotatedLineInfo,
        buffer: &mut StyledBuffer,
        width_offset: usize,
        code_offset: usize,
        max_line_num_len: usize,
        margin: Margin,
        close_window: bool,
    ) -> (marks: Vec<(usize, ElementStyle)>)
        ensures
            (final(buffer)@, marks@) == self.source_line_spec(
                old(buffer)@,
                line_info.line@,
                line_info.line_index,
                ann_views(line_info.annotations@),
                width_offset,
                code_offset,
                max_line_num_len,
                margin,
                close_window,
            ),
    {
        if line_info.line_index == 0 {
            return Vec::new();
        }
        let source_string = normalize_whitespace(&line_info.line);
        let line_offset = buffer.num_lines();
        let left = self.draw_line(
            buffer,
            &source_string,
            line_info.line_index,
            line_offset,
            width_offset,
            code_offset,
            max_line_num_len,
            margin,
        );
        let frame = LineFrame {
            line_offset,
            width_offset,
            code_offset,
            left,
            line_len: 0,
            term_width: margin.term_width,
        };
        self.draw_annotations(buffer, &source_string, &line_info.annotations, frame, close_window)
    }
}

} // verus!
