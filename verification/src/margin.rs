//! Which columns of a source line are shown when the line is wider than the
//! space at hand.

use vstd::prelude::*;

verus! {

/// Room kept beside a span for the marker that shows where a line was cut.
pub const ELLIPSIS_PASSING: usize = 6;

/// Leading whitespace longer than this is trimmed.
pub const LONG_WHITESPACE: usize = 20;

/// What is kept of long leading whitespace.
pub const LONG_WHITESPACE_PADDING: usize = 4;

/// The larger of the two.
pub open spec fn larger_spec(a: usize, b: usize) -> usize {
    if a >= b {
        a
    } else {
        b
    }
}

/// The smaller of the two.
pub open spec fn smaller_spec(a: usize, b: usize) -> usize {
    if a <= b {
        a
    } else {
        b
    }
}

/// The larger of the two.
#[verifier::when_used_as_spec(larger_spec)]
pub fn larger(a: usize, b: usize) -> (m: usize)
    ensures
        m == larger_spec(a, b),
{
    if a >= b {
        a
    } else {
        b
    }
}

/// The smaller of the two.
#[verifier::when_used_as_spec(smaller_spec)]
pub fn smaller(a: usize, b: usize) -> (m: usize)
    ensures
        m == smaller_spec(a, b),
{
    if a <= b {
        a
    } else {
        b
    }
}

/// The window of columns shown of every line of one excerpt.
#[derive(Clone, Copy, Debug)]
pub struct Margin {
    /// Leading whitespace that every line shares and that may be trimmed.
    pub whitespace_left: usize,
    /// Column where the leftmost span begins, less the room for the cut marker.
    pub span_left: usize,
    /// Column where the rightmost span ends, plus the room for the cut marker.
    pub span_right: usize,
    /// First column shown.
    pub computed_left: usize,
    /// Column after the last one shown.
    pub computed_right: usize,
    /// Columns at hand for source text.
    pub term_width: usize,
    /// Column where the rightmost label on a span's own row ends.
    pub label_right: usize,
}

impl Margin {
    /// The window for an excerpt whose lines share `whitespace_left` columns
    /// of leading whitespace, whose spans lie within `span_left..span_right`,
    /// whose labels end by `label_right`, and whose longest line has
    /// `max_line_len` columns, when `term_width` columns are at hand.
    ///
    /// Long leading whitespace is trimmed first. If the lines are still too
    /// wide, the window is `term_width` wide and starts after the whitespace
    /// if spans and labels then fit, and otherwise as far right as keeps the
    /// spans, with their labels if possible, within it. If not even the
    /// spans fit, the window is the spans.
    pub open spec fn new_spec(
        whitespace_left: usize,
        span_left: usize,
        span_right: usize,
        label_right: usize,
        term_width: usize,
        max_line_len: usize,
    ) -> Margin {
        let ws = whitespace_left.saturating_sub(ELLIPSIS_PASSING);
        let sl = span_left.saturating_sub(ELLIPSIS_PASSING);
        let sr = span_right.saturating_add(ELLIPSIS_PASSING);
        let lr = label_right.saturating_add(ELLIPSIS_PASSING);
        let left0: usize = if ws > LONG_WHITESPACE {
            (ws - (LONG_WHITESPACE - LONG_WHITESPACE_PADDING)) as usize
        } else {
            0
        };
        let right0 = larger(max_line_len, left0);
        let (left, right) = if right0 - left0 > term_width {
            if lr.saturating_sub(ws) <= term_width {
                (ws, ws.saturating_add(term_width))
            } else if lr.saturating_sub(sl) <= term_width {
                let padding_left = ((term_width - lr.saturating_sub(sl)) / 2) as usize;
                let l = sl.saturating_sub(padding_left);
                (l, l.saturating_add(term_width))
            } else if sr.saturating_sub(sl) <= term_width {
                let padding_left = ((term_width - sr.saturating_sub(sl)) / 5 * 2) as usize;
                let l = sl.saturating_sub(padding_left);
                (l, l.saturating_add(term_width))
            } else {
                (sl, sr)
            }
        } else {
            (left0, right0)
        };
        Margin {
            whitespace_left: ws,
            span_left: sl,
            span_right: sr,
            computed_left: left,
            computed_right: right,
            term_width,
            label_right: lr,
        }
    }

    /// The window for an excerpt; see [`Margin::new_spec`].
    pub fn new(
        whitespace_left: usize,
        span_left: usize,
        span_right: usize,
        label_right: usize,
        term_width: usize,
        max_line_len: usize,
    ) -> (m: Margin)
        ensures
            m == Margin::new_spec(
                whitespace_left,
                span_left,
                span_right,
                label_right,
                term_width,
                max_line_len,
            ),
    {
        let ws = whitespace_left.saturating_sub(ELLIPSIS_PASSING);
        let sl = span_left.saturating_sub(ELLIPSIS_PASSING);
        let sr = span_right.saturating_add(ELLIPSIS_PASSING);
        let lr = label_right.saturating_add(ELLIPSIS_PASSING);
        // Long leading whitespace is of no use: trim it, but for some padding.
        let mut left: usize = if ws > LONG_WHITESPACE {
            ws - (LONG_WHITESPACE - LONG_WHITESPACE_PADDING)
        } else {
            0
        };
        // The longest line is as far right as anything of interest goes.
        let mut right: usize = larger(max_line_len, left);
        if right - left > term_width {
            if lr.saturating_sub(ws) <= term_width {
                // The window fits when only whitespace is trimmed.
                left = ws;
                right = left.saturating_add(term_width);
            } else if lr.saturating_sub(sl) <= term_width {
                // Centre the spans and their labels.
                let padding_left = (term_width - lr.saturating_sub(sl)) / 2;
                left = sl.saturating_sub(padding_left);
                right = left.saturating_add(term_width);
            } else if sr.saturating_sub(sl) <= term_width {
                // Keep the spans, with some room to their left.
                let padding_left = (term_width - sr.saturating_sub(sl)) / 5 * 2;
                left = sl.saturating_sub(padding_left);
                right = left.saturating_add(term_width);
            } else {
                // Not even the spans fit: show them and nothing else.
                left = sl;
                right = sr;
            }
        }
        Margin {
            whitespace_left: ws,
            span_left: sl,
            span_right: sr,
            computed_left: left,
            computed_right: right,
            term_width,
            label_right: lr,
        }
    }

    /// Whether the start of the lines is cut off.
    pub open spec fn cut_left(&self) -> bool {
        self.computed_left > 0
    }

    /// Whether the start of the lines is cut off.
    #[verifier::when_used_as_spec(cut_left)]
    pub fn was_cut_left(&self) -> (b: bool)
        ensures
            b == self.cut_left(),
    {
        self.computed_left > 0
    }

    /// First column shown of a line of `line_len` columns.
    pub open spec fn left_spec(&self, line_len: usize) -> usize {
        smaller(self.computed_left, line_len)
    }

    /// Column after the last one shown of a line of `line_len` columns: the
    /// whole rest of the line where that fits, else the window's end.
    pub open spec fn right_spec(&self, line_len: usize) -> usize {
        if line_len.saturating_sub(self.computed_left) <= self.term_width {
            line_len
        } else {
            smaller(line_len, self.computed_right)
        }
    }

    /// First column shown of a line of `line_len` columns.
    #[verifier::when_used_as_spec(left_spec)]
    pub fn left(&self, line_len: usize) -> (l: usize)
        ensures
            l == self.left_spec(line_len),
    {
        smaller(self.computed_left, line_len)
    }

    /// Column after the last one shown of a line of `line_len` columns.
    #[verifier::when_used_as_spec(right_spec)]
    pub fn right(&self, line_len: usize) -> (r: usize)
        ensures
            r == self.right_spec(line_len),
    {
        if line_len.saturating_sub(self.computed_left) <= self.term_width {
            line_len
        } else {
            smaller(line_len, self.computed_right)
        }
    }

    /// The spans, with the room for the cut marker on both sides, fit into
    /// the columns at hand.
    pub open spec fn spans_fit(self) -> bool {
        self.span_right.saturating_sub(self.span_left) <= self.term_width
    }
}

/// The part of a line that is shown is never wider than the columns at hand,
/// for every excerpt whose spans fit into them.
pub proof fn lemma_window_fits(
    whitespace_left: usize,
    span_left: usize,
    span_right: usize,
    label_right: usize,
    term_width: usize,
    max_line_len: usize,
    line_len: usize,
)
    requires
        Margin::new_spec(
            whitespace_left,
            span_left,
            span_right,
            label_right,
            term_width,
            max_line_len,
        ).spans_fit(),
    ensures
        ({
            let m = Margin::new_spec(
                whitespace_left,
                span_left,
                span_right,
                label_right,
                term_width,
                max_line_len,
            );
            m.left_spec(line_len) <= m.right_spec(line_len) <= line_len && m.right_spec(line_len)
                - m.left_spec(line_len) <= term_width
        }),
{
}

} // verus!
