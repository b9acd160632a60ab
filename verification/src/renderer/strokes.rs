//! The strokes that the annotations of one line are drawn with: brackets,
//! connecting lines, labels and underlines.

use crate::renderer::glyphs::{margin_of, underline_parts};
use crate::renderer::line_annotation::{LineAnn, LineAnnotation, LineAnnotationType};
use crate::renderer::Renderer;
use crate::style::ElementStyle;
use crate::styled_buffer::{
    putc_spec, puts_spec, replace_spec, set_style_range_spec, Rows, StyledBuffer,
};
use vstd::prelude::*;

verus! {

/// Where on the canvas a line of source and its annotations are drawn.
#[derive(Clone, Copy, Debug)]
pub struct LineFrame {
    /// Row of the line of source.
    pub line_offset: usize,
    /// Column where the gutter of brackets starts.
    pub width_offset: usize,
    /// Column where the source starts.
    pub code_offset: usize,
    /// Column of the source that is shown first.
    pub left: usize,
    /// Rows below the underline that labels use.
    pub line_len: usize,
    /// Columns at hand for the source.
    pub term_width: usize,
}

/// An annotation and the row it hangs on.
#[derive(Clone, Copy, Debug)]
pub struct Placed {
    /// Row below the line of source, where 0 is the row of the underline.
    pub pos: usize,
    /// Position of the annotation among the annotations of the line.
    pub ann: usize,
}

impl LineFrame {
    /// Column on the canvas of column `display` of the source.
    pub open spec fn col_of(&self, display: usize) -> usize {
        self.code_offset.saturating_add(display).saturating_sub(self.left)
    }

    /// Column on the canvas of column `display` of the source.
    #[verifier::when_used_as_spec(col_of)]
    pub fn col(&self, display: usize) -> (c: usize)
        ensures
            c == self.col_of(display),
    {
        self.code_offset.saturating_add(display).saturating_sub(self.left)
    }

    /// Row on the canvas `below` rows under the line of source.
    pub open spec fn row_of(&self, below: usize) -> usize {
        self.line_offset.saturating_add(below)
    }

    /// Row on the canvas `below` rows under the line of source.
    #[verifier::when_used_as_spec(row_of)]
    pub fn row(&self, below: usize) -> (r: usize)
        ensures
            r == self.row_of(below),
    {
        self.line_offset.saturating_add(below)
    }

    /// Column of the gutter in which the bracket of depth `depth` runs.
    pub open spec fn gutter_of(&self, depth: usize) -> usize {
        self.width_offset.saturating_add(depth).saturating_sub(1)
    }

    /// Column of the gutter in which the bracket of depth `depth` runs.
    #[verifier::when_used_as_spec(gutter_of)]
    pub fn gutter(&self, depth: usize) -> (c: usize)
        ensures
            c == self.gutter_of(depth),
    {
        self.width_offset.saturating_add(depth).saturating_sub(1)
    }
}

/// `ch` drawn into column `col` of the rows `from..to`.
pub open spec fn vertical_spec(rows: Rows, col: usize, from: usize, to: usize, ch: char, style: ElementStyle) -> Rows
    decreases to - from,
{
    if from >= to {
        rows
    } else {
        vertical_spec(putc_spec(rows, from, col, ch, style), col, (from + 1) as usize, to, ch, style)
    }
}

/// `ch` drawn into row `row` under each of the source columns `from..to`.
pub open spec fn underline_run(
    rows: Rows,
    frame: LineFrame,
    row: usize,
    from: usize,
    to: usize,
    ch: char,
    style: ElementStyle,
) -> Rows
    decreases to - from,
{
    if from >= to {
        rows
    } else {
        underline_run(
            putc_spec(rows, row, frame.col_of(from), ch, style),
            frame,
            row,
            (from + 1) as usize,
            to,
            ch,
            style,
        )
    }
}

/// Draws `ch` into column `col` of the rows `from..to`.
pub fn draw_vertical(
    buffer: &mut StyledBuffer,
    col: usize,
    from: usize,
    to: usize,
    ch: char,
    style: ElementStyle,
)
    ensures
        final(buffer)@ == vertical_spec(old(buffer)@, col, from, to, ch, style),
{
    let mut row = from;
    while row < to
        invariant
            vertical_spec(buffer@, col, row, to, ch, style) == vertical_spec(
                old(buffer)@,
                col,
                from,
                to,
                ch,
                style,
            ),
        decreases to - row,
    {
        buffer.putc(row, col, ch, style);
        row += 1;
    }
}

/// Draws `ch` into row `row` under each of the source columns `from..to`.
pub fn draw_underline_run(
    buffer: &mut StyledBuffer,
    frame: LineFrame,
    row: usize,
    from: usize,
    to: usize,
    ch: char,
    style: ElementStyle,
)
    ensures
        final(buffer)@ == underline_run(old(buffer)@, frame, row, from, to, ch, style),
{
    let mut p = from;
    while p < to
        invariant
            underline_run(buffer@, frame, row, p, to, ch, style) == underline_run(
                old(buffer)@,
                frame,
                row,
                from,
                to,
                ch,
                style,
            ),
        decreases to - p,
    {
        buffer.putc(row, frame.col(p), ch, style);
        p += 1;
    }
}

impl Renderer {
    /// The horizontal stroke of an annotation: for an end of a bracket, the
    /// line from the gutter to the column it marks, on the row it hangs on;
    /// for another annotation that colours its source, that colour.
    pub open spec fn horizontal_step(
        &self,
        rows: Rows,
        frame: LineFrame,
        pos: usize,
        ann: LineAnn,
    ) -> Rows {
        let underline = underline_parts(self.theme, ann.primary());
        let row = frame.row_of(pos.saturating_add(1));
        match ann.annotation_type {
            LineAnnotationType::MultilineStart(depth) | LineAnnotationType::MultilineEnd(depth) => {
                let from = frame.width_offset.saturating_add(depth);
                let to = frame.col_of(ann.start.display);
                puts_spec(
                    rows,
                    row,
                    from,
                    crate::renderer::glyphs::repeated(
                        underline.multiline_horizontal,
                        to.saturating_sub(from) as nat,
                    ),
                    underline.style,
                )
            },
            _ => if ann.highlight_source {
                set_style_range_spec(
                    rows,
                    frame.line_offset,
                    frame.col_of(ann.start.display),
                    frame.col_of(ann.end.display),
                    underline.style,
                    ann.primary(),
                )
            } else {
                rows
            },
        }
    }

    /// Draws the horizontal stroke of an annotation.
    pub fn draw_horizontal_step(
        &self,
        buffer: &mut StyledBuffer,
        frame: LineFrame,
        pos: usize,
        ann: &LineAnnotation,
    )
        ensures
            final(buffer)@ == self.horizontal_step(old(buffer)@, frame, pos, ann@),
    {
        let underline = self.underline(ann.is_primary());
        let row = frame.row(pos.saturating_add(1));
        match ann.annotation_type {
            LineAnnotationType::MultilineStart(depth) => {
                self.draw_range(
                    buffer,
                    underline.multiline_horizontal,
                    row,
                    frame.width_offset.saturating_add(depth),
                    frame.col(ann.start.display),
                    underline.style,
                );
            },
            LineAnnotationType::MultilineEnd(depth) => {
                self.draw_range(
                    buffer,
                    underline.multiline_horizontal,
                    row,
                    frame.width_offset.saturating_add(depth),
                    frame.col(ann.start.display),
                    underline.style,
                );
            },
            _ => {
                if ann.highlight_source {
                    buffer.set_style_range(
                        frame.line_offset,
                        frame.col(ann.start.display),
                        frame.col(ann.end.display),
                        underline.style,
                        ann.is_primary(),
                    );
                }
            },
        }
    }

    /// The vertical strokes of an annotation: the line from the underline
    /// down to a label that hangs below, and for an end of a bracket the
    /// corner in the gutter and the bracket above or below it.
    pub open spec fn vertical_step(
        &self,
        rows: Rows,
        frame: LineFrame,
        pos: usize,
        ann: LineAnn,
    ) -> Rows {
        let underline = underline_parts(self.theme, ann.primary());
        let pos1 = pos.saturating_add(1);
        let row = frame.row_of(pos1);
        let col = frame.col_of(ann.start.display);
        let r1 = if pos1 > 1 && (ann.labelled() || ann.bracket_end()) {
            let down = vertical_spec(
                rows,
                col,
                frame.row_of(1),
                row.saturating_add(1),
                if ann.annotation_type is MultilineLine {
                    underline.multiline_vertical
                } else {
                    underline.vertical_text_line
                },
                underline.style,
            );
            let corner = if ann.annotation_type is MultilineStart {
                putc_spec(down, row, col, underline.bottom_right, underline.style)
            } else {
                down
            };
            if ann.annotation_type is MultilineEnd && ann.labelled() {
                putc_spec(corner, row, col, underline.multiline_bottom_right_with_text, underline.style)
            } else {
                corner
            }
        } else {
            rows
        };
        match ann.annotation_type {
            LineAnnotationType::MultilineStart(depth) => vertical_spec(
                putc_spec(r1, row, frame.gutter_of(depth), underline.top_left, underline.style),
                frame.gutter_of(depth),
                row.saturating_add(1),
                frame.row_of(frame.line_len).saturating_add(2),
                underline.multiline_vertical,
                underline.style,
            ),
            LineAnnotationType::MultilineEnd(depth) => putc_spec(
                vertical_spec(
                    r1,
                    frame.gutter_of(depth),
                    frame.line_offset,
                    row,
                    underline.multiline_vertical,
                    underline.style,
                ),
                row,
                frame.gutter_of(depth),
                underline.bottom_left,
                underline.style,
            ),
            _ => r1,
        }
    }

    /// Draws the vertical strokes of an annotation.
    pub fn draw_vertical_step(
        &self,
        buffer: &mut StyledBuffer,
        frame: LineFrame,
        pos: usize,
        ann: &LineAnnotation,
    )
        ensures
            final(buffer)@ == self.vertical_step(old(buffer)@, frame, pos, ann@),
    {
        let underline = self.underline(ann.is_primary());
        let pos1 = pos.saturating_add(1);
        let row = frame.row(pos1);
        let col = frame.col(ann.start.display);
        if pos1 > 1 && (ann.has_label() || ann.takes_space()) {
            let ch = match ann.annotation_type {
                LineAnnotationType::MultilineLine(_) => underline.multiline_vertical,
                _ => underline.vertical_text_line,
            };
            draw_vertical(buffer, col, frame.row(1), row.saturating_add(1), ch, underline.style);
            if let LineAnnotationType::MultilineStart(_) = ann.annotation_type {
                buffer.putc(row, col, underline.bottom_right, underline.style);
            }
            let is_end = match ann.annotation_type {
                LineAnnotationType::MultilineEnd(_) => true,
                _ => false,
            };
            if is_end && ann.has_label() {
                buffer.putc(row, col, underline.multiline_bottom_right_with_text, underline.style);
            }
        }
        match ann.annotation_type {
            LineAnnotationType::MultilineStart(depth) => {
                buffer.putc(row, frame.gutter(depth), underline.top_left, underline.style);
                draw_vertical(
                    buffer,
                    frame.gutter(depth),
                    row.saturating_add(1),
                    frame.row(frame.line_len).saturating_add(2),
                    underline.multiline_vertical,
                    underline.style,
                );
            },
            LineAnnotationType::MultilineEnd(depth) => {
                draw_vertical(
                    buffer,
                    frame.gutter(depth),
                    frame.line_offset,
                    row,
                    underline.multiline_vertical,
                    underline.style,
                );
                buffer.putc(row, frame.gutter(depth), underline.bottom_left, underline.style);
            },
            _ => {},
        }
    }

    /// The label of an annotation: after the underline where the annotation
    /// is on the row of the underline, and otherwise below the column where
    /// the annotation starts.
    pub open spec fn label_step(&self, rows: Rows, frame: LineFrame, pos: usize, ann: LineAnn) -> Rows {
        let style = if ann.primary() {
            ElementStyle::LabelPrimary
        } else {
            ElementStyle::LabelSecondary
        };
        let below = if pos == 0 {
            1usize
        } else {
            pos.saturating_add(2)
        };
        let col = if pos == 0 {
            if ann.end.display == 0 {
                2usize.saturating_sub(frame.left)
            } else {
                ann.end.display.saturating_add(1).saturating_sub(frame.left)
            }
        } else {
            ann.start.display.saturating_sub(frame.left)
        };
        match ann.label {
            Some(label) => puts_spec(
                rows,
                frame.row_of(below),
                frame.code_offset.saturating_add(col),
                label,
                style,
            ),
            None => rows,
        }
    }

    /// Draws the label of an annotation.
    pub fn draw_label_step(&self, buffer: &mut StyledBuffer, frame: LineFrame, pos: usize, ann: &LineAnnotation)
        ensures
            final(buffer)@ == self.label_step(old(buffer)@, frame, pos, ann@),
    {
        let style = if ann.is_primary() {
            ElementStyle::LabelPrimary
        } else {
            ElementStyle::LabelSecondary
        };
        let below: usize = if pos == 0 {
            1
        } else {
            pos.saturating_add(2)
        };
        let col: usize = if pos == 0 {
            if ann.end.display == 0 {
                2usize.saturating_sub(frame.left)
            } else {
                ann.end.display.saturating_add(1).saturating_sub(frame.left)
            }
        } else {
            ann.start.display.saturating_sub(frame.left)
        };
        if let Some(label) = &ann.label {
            buffer.puts(frame.row(below), frame.code_offset.saturating_add(col), label, style);
        }
    }

    /// The underline of an annotation, and on its first column the mark
    /// that says where a bracket or a hanging label goes from there.
    pub open spec fn underline_step(
        &self,
        rows: Rows,
        frame: LineFrame,
        pos: usize,
        ann: LineAnn,
    ) -> Rows {
        let uline = underline_parts(self.theme, ann.primary());
        let row = frame.row_of(1);
        let col = frame.col_of(ann.start.display);
        let r1 = underline_run(
            rows,
            frame,
            row,
            ann.start.display,
            ann.end.display,
            uline.underline,
            uline.style,
        );
        match ann.annotation_type {
            LineAnnotationType::MultilineStart(_) => putc_spec(
                r1,
                row,
                col,
                if pos == 0 {
                    uline.top_right_flat
                } else {
                    uline.multiline_start_down
                },
                uline.style,
            ),
            LineAnnotationType::MultilineEnd(_) => putc_spec(
                r1,
                row,
                col,
                if pos == 0 {
                    uline.multiline_end_same_line
                } else {
                    uline.multiline_end_up
                },
                uline.style,
            ),
            _ => if pos != 0 && ann.labelled() {
                putc_spec(r1, row, col, uline.label_start, uline.style)
            } else {
                r1
            },
        }
    }

    /// Draws the underline of an annotation.
    pub fn draw_underline_step(
        &self,
        buffer: &mut StyledBuffer,
        frame: LineFrame,
        pos: usize,
        ann: &LineAnnotation,
    )
        ensures
            final(buffer)@ == self.underline_step(old(buffer)@, frame, pos, ann@),
    {
        let uline = self.underline(ann.is_primary());
        let row = frame.row(1);
        let col = frame.col(ann.start.display);
        draw_underline_run(
            buffer,
            frame,
            row,
            ann.start.display,
            ann.end.display,
            uline.underline,
            uline.style,
        );
        match ann.annotation_type {
            LineAnnotationType::MultilineStart(_) => {
                // The bracket leaves to the left on this row, or goes down first.
                let ch = if pos == 0 {
                    uline.top_right_flat
                } else {
                    uline.multiline_start_down
                };
                buffer.putc(row, col, ch, uline.style);
            },
            LineAnnotationType::MultilineEnd(_) => {
                let ch = if pos == 0 {
                    uline.multiline_end_same_line
                } else {
                    uline.multiline_end_up
                };
                buffer.putc(row, col, ch, uline.style);
            },
            _ => {
                if pos != 0 && ann.has_label() {
                    // The label hangs below: point down to it.
                    buffer.putc(row, col, uline.label_start, uline.style);
                }
            },
        }
    }

    /// Whether the middle of the annotation is cut out: it lies on one
    /// line, no other annotation was noted as overlapping, and it is more
    /// than twice as wide as the columns at hand and wider than 10 columns.
    pub open spec fn is_cut(&self, frame: LineFrame, overlapped: bool, ann: LineAnn) -> bool {
        let width = ann.end.display.saturating_sub(ann.start.display);
        !overlapped && ann.annotation_type is Singleline && width > frame.term_width * 2
            && width > 10
    }

    /// The middle of a very wide annotation is replaced by the marker for a
    /// cut, on the line of source and on the row of the underline.
    pub open spec fn cut_step(&self, rows: Rows, frame: LineFrame, overlapped: bool, ann: LineAnn) -> Rows {
        if self.is_cut(frame, overlapped, ann) {
            let pad: usize = if frame.term_width / 3 > 5 {
                (frame.term_width / 3) as usize
            } else {
                5
            };
            let from = ann.start.display.saturating_add(pad);
            let to = ann.end.display.saturating_sub(pad);
            replace_spec(
                replace_spec(rows, frame.line_offset, from, to, margin_of(self.theme)),
                frame.row_of(1),
                from,
                to,
                margin_of(self.theme),
            )
        } else {
            rows
        }
    }

    /// Cuts the middle out of a very wide annotation.
    pub fn draw_cut_step(&self, buffer: &mut StyledBuffer, frame: LineFrame, overlapped: bool, ann: &LineAnnotation)
        ensures
            final(buffer)@ == self.cut_step(old(buffer)@, frame, overlapped, ann@),
    {
        if overlapped {
            return ;
        }
        match ann.annotation_type {
            LineAnnotationType::Singleline => {},
            _ => {
                return ;
            },
        }
        let width = ann.end.display.saturating_sub(ann.start.display);
        if width > frame.term_width.saturating_add(frame.term_width) && width > 10 {
            // Even on a very narrow terminal, a bit of the span stays.
            let pad: usize = if frame.term_width / 3 > 5 {
                frame.term_width / 3
            } else {
                5
            };
            let marker = self.margin();
            let from = ann.start.display.saturating_add(pad);
            let to = ann.end.display.saturating_sub(pad);
            buffer.replace(frame.line_offset, from, to, &marker);
            buffer.replace(frame.row(1), from, to, &marker);
        }
    }
}

} // verus!
