//! Drawing an excerpt: where it is from, its lines with their annotations,
//! and the brackets that run past them in the gutter.

use crate::margin::{larger, smaller, Margin};
use crate::renderer::glyphs::{col_separator_of, file_start_of, multiline_line_char, secondary_file_start_of};
use crate::renderer::line_annotation::{
    ann_views, annotated_views, AnnotatedLine, AnnotatedLineInfo, LineAnn, LineAnnotation,
    LineAnnotationType,
};
use crate::renderer::source_line::mark;
use crate::renderer::strokes::{draw_vertical, vertical_spec};
use crate::renderer::{OutputTheme, Renderer};
use crate::source_map::{SourceMap, SourceMapView};
use crate::style::ElementStyle;
use crate::styled_buffer::{putc_spec, puts_spec, saturate_len, Rows, StyledBuffer};
use crate::text::{
    all_whitespace, byte_count, byte_len, count_leading_whitespace, leading_whitespace,
    lemma_leading_whitespace, normalize_whitespace, normalized, saturate, tab_cols, tab_columns,
};
use vstd::prelude::*;

verus! {

/// What the window onto the lines of an excerpt is worked out from.
#[derive(Clone, Copy, Debug)]
pub struct Margins {
    /// Columns of whitespace that every line with text starts with.
    pub whitespace: usize,
    /// Leftmost column that an annotation touches.
    pub span_left: usize,
    /// Rightmost column that an annotation touches.
    pub span_right: usize,
    /// Rightmost column that a label on the row of the underline reaches.
    pub label_right: usize,
    /// Bytes of the longest line.
    pub max_line_len: usize,
}

/// Columns of whitespace that `line` starts with, a tab counting four.
pub open spec fn leading_columns(line: Seq<char>) -> usize {
    saturate(tab_cols(line.subrange(0, leading_whitespace(line) as int)) as int)
}

/// Columns that the label of `a` and the blank before it take.
pub open spec fn label_room(a: LineAnn) -> usize {
    match a.label {
        Some(label) => saturate(byte_len(label) as int).saturating_add(1),
        None => 0,
    }
}

/// `acc` widened by the annotations `anns[k..]`.
pub open spec fn ann_margins(acc: Margins, anns: Seq<LineAnn>, k: int) -> Margins
    decreases anns.len() - k,
{
    if k >= anns.len() || k < 0 {
        acc
    } else {
        let a = anns[k];
        ann_margins(
            Margins {
                whitespace: acc.whitespace,
                span_left: smaller(smaller(acc.span_left, a.start.display), a.end.display),
                span_right: larger(larger(acc.span_right, a.start.display), a.end.display),
                label_right: larger(acc.label_right, a.end.display.saturating_add(label_room(a))),
                max_line_len: acc.max_line_len,
            },
            anns,
            k + 1,
        )
    }
}

/// `acc` widened by the lines `lines[k..]` and their annotations.
pub open spec fn line_margins(acc: Margins, lines: Seq<AnnotatedLine>, k: int) -> Margins
    decreases lines.len() - k,
{
    if k >= lines.len() || k < 0 {
        acc
    } else {
        let line = lines[k].line;
        let with_line = Margins {
            whitespace: if all_whitespace(line) {
                acc.whitespace
            } else {
                smaller(acc.whitespace, leading_columns(line))
            },
            span_left: acc.span_left,
            span_right: acc.span_right,
            label_right: acc.label_right,
            max_line_len: larger(acc.max_line_len, saturate(byte_len(line) as int)),
        };
        line_margins(ann_margins(with_line, lines[k].annotations, 0), lines, k + 1)
    }
}

/// The window onto the lines of an excerpt, where `column_width` columns
/// are at hand for source.
pub open spec fn excerpt_margin(lines: Seq<AnnotatedLine>, column_width: usize) -> Margin {
    let m = line_margins(
        Margins {
            whitespace: usize::MAX,
            span_left: usize::MAX,
            span_right: 0,
            label_right: 0,
            max_line_len: 0,
        },
        lines,
        0,
    );
    Margin::new_spec(
        if m.whitespace == usize::MAX {
            0
        } else {
            m.whitespace
        },
        if m.span_left == usize::MAX {
            0
        } else {
            m.span_left
        },
        m.span_right,
        m.label_right,
        column_width,
        m.max_line_len,
    )
}

/// The window onto the lines of an excerpt; see [`excerpt_margin`].
pub fn excerpt_margin_of(lines: &Vec<AnnotatedLineInfo>, column_width: usize) -> (margin: Margin)
    ensures
        margin == excerpt_margin(annotated_views(lines@), column_width),
{
    let mut acc = Margins {
        whitespace: usize::MAX,
        span_left: usize::MAX,
        span_right: 0,
        label_right: 0,
        max_line_len: 0,
    };
    let ghost first = acc;
    let mut k: usize = 0;
    while k < lines.len()
        invariant
            k <= lines.len(),
            line_margins(acc, annotated_views(lines@), k as int) == line_margins(first, annotated_views(lines@), 0),
        decreases lines.len() - k,
    {
        let info = &lines[k];
        // Only whitespace that every line with text starts with can be trimmed.
        let blank = count_leading_whitespace(&info.line);
        proof {
            lemma_leading_whitespace(info.line@);
        }
        if blank < info.line.len() {
            acc.whitespace = smaller(acc.whitespace, tab_columns(&info.line, 0, blank));
        }
        acc.max_line_len = larger(acc.max_line_len, byte_count(&info.line));
        let ghost with_line = acc;
        let mut a: usize = 0;
        while a < info.annotations.len()
            invariant
                a <= info.annotations.len(),
                ann_margins(acc, ann_views(info.annotations@), a as int) == ann_margins(
                    with_line,
                    ann_views(info.annotations@),
                    0,
                ),
            decreases info.annotations.len() - a,
        {
            let ann = &info.annotations[a];
            acc.span_left = smaller(smaller(acc.span_left, ann.start.display), ann.end.display);
            acc.span_right = larger(larger(acc.span_right, ann.start.display), ann.end.display);
            let room = match &ann.label {
                Some(label) => byte_count(label).saturating_add(1),
                None => 0,
            };
            acc.label_right = larger(acc.label_right, ann.end.display.saturating_add(room));
            a += 1;
        }
        k += 1;
    }
    Margin::new(
        if acc.whitespace == usize::MAX {
            0
        } else {
            acc.whitespace
        },
        if acc.span_left == usize::MAX {
            0
        } else {
            acc.span_left
        },
        acc.span_right,
        acc.label_right,
        column_width,
        acc.max_line_len,
    )
}

/// Whether one of the annotations is primary.
pub open spec fn has_primary(anns: Seq<LineAnn>) -> bool {
    exists|k: int| 0 <= k < anns.len() && (#[trigger] anns[k]).primary()
}

fn any_primary(anns: &Vec<LineAnnotation>) -> (b: bool)
    ensures
        b == has_primary(ann_views(anns@)),
{
    let mut k: usize = 0;
    while k < anns.len()
        invariant
            k <= anns.len(),
            forall|m: int| 0 <= m < k ==> !(#[trigger] ann_views(anns@)[m]).primary(),
        decreases anns.len() - k,
    {
        if anns[k].is_primary() {
            proof {
                assert(ann_views(anns@)[k as int].primary());
            }
            return true;
        }
        k += 1;
    }
    false
}

/// The first line from `k` on with a primary annotation, or, with
/// `any`, with an annotation at all; the number of lines where there is none.
pub open spec fn first_line_with(lines: Seq<AnnotatedLine>, any: bool, k: int) -> int
    decreases lines.len() - k,
{
    if k >= lines.len() || k < 0 {
        lines.len() as int
    } else if (any && lines[k].annotations.len() > 0) || (!any && has_primary(lines[k].annotations)) {
        k
    } else {
        first_line_with(lines, any, k + 1)
    }
}

fn first_line_with_of(lines: &Vec<AnnotatedLineInfo>, any: bool) -> (at: usize)
    ensures
        at == first_line_with(annotated_views(lines@), any, 0),
        at <= lines@.len(),
{
    let mut k: usize = 0;
    while k < lines.len()
        invariant
            k <= lines.len(),
            first_line_with(annotated_views(lines@), any, k as int) == first_line_with(annotated_views(lines@), any, 0),
        decreases lines.len() - k,
    {
        let hit = if any {
            lines[k].annotations.len() > 0
        } else {
            any_primary(&lines[k].annotations)
        };
        if hit {
            return k;
        }
        k += 1;
    }
    k
}

/// Whether `a` is named before `b` as the place of a report: a primary
/// annotation before another, and of two alike the one that starts first.
pub open spec fn place_before(a: LineAnn, b: LineAnn) -> bool {
    (a.primary() && !b.primary()) || (a.primary() == b.primary() && a.start.char < b.start.char)
}

/// The annotation that names the place, among `best` and `anns[k..]`.
pub open spec fn first_place(anns: Seq<LineAnn>, k: int, best: int) -> int
    decreases anns.len() - k,
{
    if k >= anns.len() || k < 0 {
        best
    } else if place_before(anns[k], anns[best]) {
        first_place(anns, k + 1, k)
    } else {
        first_place(anns, k + 1, best)
    }
}

/// The line and the column that an excerpt is said to be at: for the
/// primary excerpt, the first line with a primary annotation, or else with
/// any, and on it the primary annotation that starts first; for another
/// excerpt, its first line and the first annotation on it.
pub open spec fn origin_place(lines: Seq<AnnotatedLine>, is_primary: bool) -> (
    Option<usize>,
    Option<usize>,
) {
    if is_primary {
        let p = first_line_with(lines, false, 0);
        let at = if p < lines.len() {
            p
        } else {
            first_line_with(lines, true, 0)
        };
        if 0 <= at < lines.len() {
            let anns = lines[at].annotations;
            (
                Some(lines[at].line_index),
                if anns.len() > 0 {
                    Some(anns[first_place(anns, 1, 0)].start.char.saturating_add(1))
                } else {
                    None
                },
            )
        } else {
            (None, None)
        }
    } else if lines.len() > 0 {
        (
            Some(lines[0].line_index),
            if lines[0].annotations.len() > 0 {
                Some(lines[0].annotations[0].start.char.saturating_add(1))
            } else {
                None
            },
        )
    } else {
        (None, None)
    }
}

/// The line and the column that an excerpt is said to be at; see [`origin_place`].
pub fn origin_place_of(lines: &Vec<AnnotatedLineInfo>, is_primary: bool) -> (place: (
    Option<usize>,
    Option<usize>,
))
    ensures
        place == origin_place(annotated_views(lines@), is_primary),
{
    if is_primary {
        let p = first_line_with_of(lines, false);
        let at = if p < lines.len() {
            p
        } else {
            first_line_with_of(lines, true)
        };
        if at < lines.len() {
            let anns = &lines[at].annotations;
            if anns.len() > 0 {
                let mut best: usize = 0;
                let mut k: usize = 1;
                while k < anns.len()
                    invariant
                        1 <= k <= anns.len(),
                        best < anns.len(),
                        first_place(ann_views(anns@), k as int, best as int) == first_place(ann_views(anns@), 1, 0),
                    decreases anns.len() - k,
                {
                    let a = &anns[k];
                    let b = &anns[best];
                    if (a.is_primary() && !b.is_primary()) || (a.is_primary() == b.is_primary()
                        && a.start.char < b.start.char) {
                        best = k;
                    }
                    k += 1;
                }
                (Some(lines[at].line_index), Some(anns[best].start.char.saturating_add(1)))
            } else {
                (Some(lines[at].line_index), None)
            }
        } else {
            (None, None)
        }
    } else if lines.len() > 0 {
        if lines[0].annotations.len() > 0 {
            (Some(lines[0].line_index), Some(lines[0].annotations[0].start.char.saturating_add(1)))
        } else {
            (Some(lines[0].line_index), None)
        }
    } else {
        (None, None)
    }
}

/// The brackets that are open, each with its column in the gutter and its style.
pub type Brackets = Seq<(usize, ElementStyle)>;

/// Position of the first bracket from `k` on that runs in column `depth`,
/// or the number of brackets.
pub open spec fn bracket_at(open: Brackets, depth: usize, k: int) -> int
    decreases open.len() - k,
{
    if k >= open.len() || k < 0 {
        open.len() as int
    } else if open[k].0 == depth {
        k
    } else {
        bracket_at(open, depth, k + 1)
    }
}

/// `pending` with the bracket of column `depth` in `style`: in place of one
/// in the same column, or else at the end.
pub open spec fn with_bracket(pending: Brackets, depth: usize, style: ElementStyle) -> Brackets {
    let at = bracket_at(pending, depth, 0);
    if 0 <= at < pending.len() {
        pending.update(at, mark(depth, style))
    } else {
        pending.push(mark(depth, style))
    }
}

/// The open brackets and the brackets to open after the marks `marks[k..]`
/// of a line: a mark in the column of an open bracket closes it, every other
/// mark opens a bracket once the line is done.
pub open spec fn carried(open: Brackets, pending: Brackets, marks: Brackets, k: int) -> (
    Brackets,
    Brackets,
)
    decreases marks.len() - k,
{
    if k >= marks.len() || k < 0 {
        (open, pending)
    } else {
        let at = bracket_at(open, marks[k].0, 0);
        if 0 <= at < open.len() {
            carried(open.update(at, open.last()).drop_last(), pending, marks, k + 1)
        } else {
            carried(open, with_bracket(pending, marks[k].0, marks[k].1), marks, k + 1)
        }
    }
}

fn bracket_at_of(open: &Vec<(usize, ElementStyle)>, depth: usize) -> (at: usize)
    ensures
        at == bracket_at(open@, depth, 0),
        at <= open@.len(),
{
    let mut k: usize = 0;
    while k < open.len()
        invariant
            k <= open.len(),
            bracket_at(open@, depth, k as int) == bracket_at(open@, depth, 0),
        decreases open.len() - k,
    {
        if open[k].0 == depth {
            return k;
        }
        k += 1;
    }
    k
}

impl Renderer {
    /// The canvas after every bracket of `open[m..]` was drawn on the rows `from..to`.
    pub open spec fn brackets_spec(
        &self,
        rows: Rows,
        open: Brackets,
        m: int,
        from: usize,
        to: usize,
        width_offset: usize,
    ) -> Rows
        decreases open.len() - m,
    {
        if m >= open.len() || m < 0 {
            rows
        } else {
            self.brackets_spec(
                vertical_spec(
                    rows,
                    width_offset.saturating_add(open[m].0).saturating_sub(1),
                    from,
                    to,
                    multiline_line_char(self.theme, open[m].1),
                    open[m].1,
                ),
                open,
                m + 1,
                from,
                to,
                width_offset,
            )
        }
    }

    /// Draws every open bracket on the rows `from..to`.
    pub fn draw_brackets(
        &self,
        buffer: &mut StyledBuffer,
        open: &Vec<(usize, ElementStyle)>,
        from: usize,
        to: usize,
        width_offset: usize,
    )
        ensures
            final(buffer)@ == self.brackets_spec(old(buffer)@, open@, 0, from, to, width_offset),
    {
        let mut m: usize = 0;
        while m < open.len()
            invariant
                m <= open.len(),
                self.brackets_spec(buffer@, open@, m as int, from, to, width_offset)
                    == self.brackets_spec(old(buffer)@, open@, 0, from, to, width_offset),
            decreases open.len() - m,
        {
            let (depth, style) = open[m];
            let chr = match self.theme {
                OutputTheme::Ascii => '|',
                OutputTheme::Unicode => match style {
                    ElementStyle::UnderlinePrimary => '┃',
                    ElementStyle::LabelPrimary => '┃',
                    _ => '│',
                },
            };
            draw_vertical(
                buffer,
                width_offset.saturating_add(depth).saturating_sub(1),
                from,
                to,
                chr,
                style,
            );
            m += 1;
        }
    }

    /// The canvas after the brackets that start among `anns[k..]` were
    /// drawn on row `row`.
    pub open spec fn starts_spec(
        &self,
        rows: Rows,
        anns: Seq<LineAnn>,
        k: int,
        row: usize,
        width_offset: usize,
    ) -> Rows
        decreases anns.len() - k,
    {
        if k >= anns.len() || k < 0 {
            rows
        } else {
            match anns[k].annotation_type {
                LineAnnotationType::MultilineStart(depth) => {
                    let style = if anns[k].primary() {
                        ElementStyle::UnderlinePrimary
                    } else {
                        ElementStyle::UnderlineSecondary
                    };
                    self.starts_spec(
                        putc_spec(
                            rows,
                            row,
                            width_offset.saturating_add(depth).saturating_sub(1),
                            multiline_line_char(self.theme, style),
                            style,
                        ),
                        anns,
                        k + 1,
                        row,
                        width_offset,
                    )
                },
                _ => self.starts_spec(rows, anns, k + 1, row, width_offset),
            }
        }
    }

    /// Draws the brackets that start among `anns` on row `row`.
    pub fn draw_starts(
        &self,
        buffer: &mut StyledBuffer,
        anns: &Vec<LineAnnotation>,
        row: usize,
        width_offset: usize,
    )
        ensures
            final(buffer)@ == self.starts_spec(old(buffer)@, ann_views(anns@), 0, row, width_offset),
    {
        let mut k: usize = 0;
        while k < anns.len()
            invariant
                k <= anns.len(),
                self.starts_spec(buffer@, ann_views(anns@), k as int, row, width_offset) == self.starts_spec(
                    old(buffer)@,
                    ann_views(anns@),
                    0,
                    row,
                    width_offset,
                ),
            decreases anns.len() - k,
        {
            if let LineAnnotationType::MultilineStart(depth) = anns[k].annotation_type {
                let style = if anns[k].is_primary() {
                    ElementStyle::UnderlinePrimary
                } else {
                    ElementStyle::UnderlineSecondary
                };
                self.draw_multiline_line(buffer, row, width_offset, depth, style);
            }
            k += 1;
        }
    }

    /// The canvas after what lies between line `k` and the next was drawn:
    /// the one line between them if there is just one, and the marker for
    /// lines left out if there are more; and on that row the brackets that
    /// are open or start on line `k`.
    pub open spec fn between_spec(
        &self,
        rows: Rows,
        open: Brackets,
        lines: Seq<AnnotatedLine>,
        sm: SourceMapView,
        k: int,
        width_offset: usize,
        code_offset: usize,
        max_line_num_len: usize,
        margin: Margin,
    ) -> Rows {
        let delta = lines[k + 1].line_index.saturating_sub(lines[k].line_index);
        let last = saturate_len(rows.len());
        if delta > 2 {
            let r1 = self.line_separator_spec(rows, last, width_offset);
            let r2 = self.brackets_spec(r1, open, 0, last, last.saturating_add(1), width_offset);
            self.starts_spec(r2, lines[k].annotations, 0, last, width_offset)
        } else if delta == 2 {
            let text = match sm.line_text(lines[k].line_index.saturating_add(1)) {
                Some(t) => t,
                None => Seq::empty(),
            };
            let r1 = self.draw_line_spec(
                rows,
                normalized(text),
                lines[k + 1].line_index.saturating_sub(1),
                last,
                width_offset,
                code_offset,
                max_line_num_len,
                margin,
            ).0;
            let r2 = self.brackets_spec(r1, open, 0, last, last.saturating_add(1), width_offset);
            self.starts_spec(r2, lines[k].annotations, 0, last, width_offset)
        } else {
            rows
        }
    }

    /// The canvas after the lines `lines[k..]` were drawn, where the
    /// brackets `open` are open before line `k`.
    ///
    /// Each line is drawn with its annotations. The brackets that are open
    /// and do not end on the line run past all of its rows. Then follows
    /// what lies between the line and the next.
    pub open spec fn lines_spec(
        &self,
        rows: Rows,
        open: Brackets,
        lines: Seq<AnnotatedLine>,
        sm: SourceMapView,
        k: int,
        width_offset: usize,
        code_offset: usize,
        max_line_num_len: usize,
        margin: Margin,
        is_cont: bool,
    ) -> Rows
        decreases lines.len() - k,
    {
        if k >= lines.len() || k < 0 {
            rows
        } else {
            let previous = saturate_len(rows.len());
            let drawn = self.source_line_spec(
                rows,
                lines[k].line,
                lines[k].line_index,
                lines[k].annotations,
                width_offset,
                code_offset,
                max_line_num_len,
                margin,
                !is_cont && k + 1 == lines.len(),
            );
            let next = carried(open, Seq::empty(), drawn.1, 0);
            let r1 = self.brackets_spec(
                drawn.0,
                next.0,
                0,
                previous,
                saturate_len(drawn.0.len()),
                width_offset,
            );
            let r2 = if k + 1 < lines.len() {
                self.between_spec(
                    r1,
                    next.0,
                    lines,
                    sm,
                    k,
                    width_offset,
                    code_offset,
                    max_line_num_len,
                    margin,
                )
            } else {
                r1
            };
            self.lines_spec(
                r2,
                next.0 + next.1,
                lines,
                sm,
                k + 1,
                width_offset,
                code_offset,
                max_line_num_len,
                margin,
                is_cont,
            )
        }
    }

    /// The canvas after the place of an excerpt was drawn below what the
    /// canvas holds.
    ///
    /// With a path, the place is the path with line and column, followed
    /// by an empty row of the gutter; before the place of an excerpt that
    /// is not the primary one stands another empty row. Without a path,
    /// there is only the start of the gutter.
    pub open spec fn excerpt_header_spec(
        &self,
        rows: Rows,
        max_line_num_len: usize,
        path: Option<Seq<char>>,
        is_primary: bool,
        lines: Seq<AnnotatedLine>,
    ) -> Rows {
        let sep_col = max_line_num_len.saturating_add(1);
        let sep = col_separator_of(self.theme);
        match path {
            Some(p) => {
                let place = origin_place(lines, is_primary);
                let r1 = if is_primary {
                    rows
                } else {
                    putc_spec(rows, saturate_len(rows.len()), sep_col, sep, ElementStyle::LineNumber)
                };
                let offset = saturate_len(r1.len());
                let r2 = self.origin_spec(
                    r1,
                    max_line_num_len,
                    p,
                    place.0,
                    place.1,
                    is_primary,
                    offset,
                );
                putc_spec(r2, offset.saturating_add(1), sep_col, sep, ElementStyle::LineNumber)
            },
            None => {
                let offset = saturate_len(rows.len());
                if is_primary {
                    if self.theme == OutputTheme::Unicode {
                        puts_spec(
                            rows,
                            offset,
                            max_line_num_len,
                            file_start_of(self.theme),
                            ElementStyle::LineNumber,
                        )
                    } else {
                        putc_spec(rows, offset, sep_col, sep, ElementStyle::LineNumber)
                    }
                } else {
                    puts_spec(
                        putc_spec(rows, offset, sep_col, sep, ElementStyle::LineNumber),
                        offset.saturating_add(1),
                        max_line_num_len,
                        secondary_file_start_of(self.theme),
                        ElementStyle::LineNumber,
                    )
                }
            },
        }
    }

    /// The canvas after an excerpt with its annotations was drawn below
    /// what the canvas holds: its place, and then its lines within the
    /// window that the terminal's width allows.
    pub open spec fn snippet_annotations_spec(
        &self,
        rows: Rows,
        max_line_num_len: usize,
        path: Option<Seq<char>>,
        is_primary: bool,
        sm: SourceMapView,
        lines: Seq<AnnotatedLine>,
        multiline_depth: usize,
        is_cont: bool,
    ) -> Rows {
        let r1 = self.excerpt_header_spec(rows, max_line_num_len, path, is_primary, lines);
        let width_offset = 3usize.saturating_add(max_line_num_len);
        let code_offset = if multiline_depth == 0 {
            width_offset
        } else {
            width_offset.saturating_add(multiline_depth).saturating_add(1)
        };
        let margin = excerpt_margin(lines, self.term_width.saturating_sub(code_offset));
        self.lines_spec(
            r1,
            Seq::empty(),
            lines,
            sm,
            0,
            width_offset,
            code_offset,
            max_line_num_len,
            margin,
            is_cont,
        )
    }

    /// Draws an excerpt with its annotations below what the canvas holds.
    pub fn render_snippet_annotations(
        &self,
        buffer: &mut StyledBuffer,
        max_line_num_len: usize,
        path: Option<&Vec<char>>,
        is_primary: bool,
        sm: &SourceMap,
        annotated_lines: &Vec<AnnotatedLineInfo>,
        multiline_depth: usize,
        is_cont: bool,
    )
        ensures
            final(buffer)@ == self.snippet_annotations_spec(
                old(buffer)@,
                max_line_num_len,
                match path {
                    Some(p) => Some(p@),
                    None => None,
                },
                is_primary,
                sm@,
                annotated_views(annotated_lines@),
                multiline_depth,
                is_cont,
            ),
    {
        let sep_col = max_line_num_len.saturating_add(1);
        match path {
            Some(p) => {
                // The place is shown before the source, so it has to be
                // known by now whether this excerpt is the primary one.
                let place = origin_place_of(annotated_lines, is_primary);
                if !is_primary {
                    // An empty row of the gutter parts this excerpt from the one before.
                    let offset = buffer.num_lines();
                    self.draw_col_separator_no_space(buffer, offset, sep_col);
                }
                let offset = buffer.num_lines();
                self.render_origin(buffer, max_line_num_len, p, place.0, place.1, is_primary, offset);
                // The row between the place and the source.
                self.draw_col_separator_no_space(buffer, offset.saturating_add(1), sep_col);
            },
            None => {
                let offset = buffer.num_lines();
                if is_primary {
                    if self.theme == OutputTheme::Unicode {
                        let arrow = self.file_start();
                        buffer.puts(offset, max_line_num_len, &arrow, ElementStyle::LineNumber);
                    } else {
                        self.draw_col_separator_no_space(buffer, offset, sep_col);
                    }
                } else {
                    self.draw_col_separator_no_space(buffer, offset, sep_col);
                    let arrow = self.secondary_file_start();
                    buffer.puts(
                        offset.saturating_add(1),
                        max_line_num_len,
                        &arrow,
                        ElementStyle::LineNumber,
                    );
                }
            },
        }
        let width_offset = 3usize.saturating_add(max_line_num_len);
        let code_offset = if multiline_depth == 0 {
            width_offset
        } else {
            width_offset.saturating_add(multiline_depth).saturating_add(1)
        };
        let column_width = self.term_width.saturating_sub(code_offset);
        let margin = excerpt_margin_of(annotated_lines, column_width);
        // The brackets that run past the line that is drawn.
        let mut multilines: Vec<(usize, ElementStyle)> = Vec::new();
        let ghost start = buffer@;
        let mut idx: usize = 0;
        while idx < annotated_lines.len()
            invariant
                idx <= annotated_lines.len(),
                self.lines_spec(
                    buffer@,
                    multilines@,
                    annotated_views(annotated_lines@),
                    sm@,
                    idx as int,
                    width_offset,
                    code_offset,
                    max_line_num_len,
                    margin,
                    is_cont,
                ) == self.lines_spec(
                    start,
                    Seq::empty(),
                    annotated_views(annotated_lines@),
                    sm@,
                    0,
                    width_offset,
                    code_offset,
                    max_line_num_len,
                    margin,
                    is_cont,
                ),
            decreases annotated_lines.len() - idx,
        {
            let previous_buffer_line = buffer.num_lines();
            let marks = self.render_source_line(
                &annotated_lines[idx],
                buffer,
                width_offset,
                code_offset,
                max_line_num_len,
                margin,
                !is_cont && idx + 1 == annotated_lines.len(),
            );
            let mut to_add: Vec<(usize, ElementStyle)> = Vec::new();
            let ghost open0 = multilines@;
            let mut k: usize = 0;
            while k < marks.len()
                invariant
                    k <= marks.len(),
                    carried(multilines@, to_add@, marks@, k as int) == carried(
                        open0,
                        Seq::empty(),
                        marks@,
                        0,
                    ),
                decreases marks.len() - k,
            {
                let (depth, style) = marks[k];
                let at = bracket_at_of(&multilines, depth);
                if at < multilines.len() {
                    multilines.swap_remove(at);
                } else {
                    let slot = bracket_at_of(&to_add, depth);
                    if slot < to_add.len() {
                        to_add[slot] = (depth, style);
                    } else {
                        to_add.push((depth, style));
                    }
                }
                k += 1;
            }
            // The open brackets run down the left of the rows of this line.
            let end = buffer.num_lines();
            self.draw_brackets(buffer, &multilines, previous_buffer_line, end, width_offset);
            // What lies between this line and the next is shown or left out.
            if idx + 1 < annotated_lines.len() {
                let delta = annotated_lines[idx + 1].line_index.saturating_sub(
                    annotated_lines[idx].line_index,
                );
                if delta > 2 {
                    let last = buffer.num_lines();
                    self.draw_line_separator(buffer, last, width_offset);
                    self.draw_brackets(buffer, &multilines, last, last.saturating_add(1), width_offset);
                    // Where the lines after the start of a bracket are left
                    // out, the bracket still runs past the marker.
                    self.draw_starts(buffer, &annotated_lines[idx].annotations, last, width_offset);
                } else if delta == 2 {
                    let empty: Vec<char> = Vec::new();
                    let unannotated = match sm.get_line(
                        annotated_lines[idx].line_index.saturating_add(1),
                    ) {
                        Some(text) => normalize_whitespace(text),
                        None => normalize_whitespace(&empty),
                    };
                    let last = buffer.num_lines();
                    self.draw_line(
                        buffer,
                        &unannotated,
                        annotated_lines[idx + 1].line_index.saturating_sub(1),
                        last,
                        width_offset,
                        code_offset,
                        max_line_num_len,
                        margin,
                    );
                    self.draw_brackets(buffer, &multilines, last, last.saturating_add(1), width_offset);
                    self.draw_starts(buffer, &annotated_lines[idx].annotations, last, width_offset);
                }
            }
            let ghost kept = multilines@;
            let mut t: usize = 0;
            while t < to_add.len()
                invariant
                    t <= to_add.len(),
                    multilines@ == kept + to_add@.take(t as int),
                decreases to_add.len() - t,
            {
                multilines.push(to_add[t]);
                proof {
                    assert(multilines@ =~= kept + to_add@.take(t + 1));
                }
                t += 1;
            }
            proof {
                assert(to_add@.take(to_add@.len() as int) =~= to_add@);
            }
            idx += 1;
        }
    }
}

} // verus!
