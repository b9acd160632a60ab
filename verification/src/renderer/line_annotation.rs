//! An annotation as it appears on one line of an excerpt.

use crate::snippet::AnnotationKind;
use crate::source_map::Loc;
use vstd::prelude::*;

verus! {

/// The part that an annotation plays on a line.
#[derive(Clone, Copy, Debug, PartialEq, Eq, Structural)]
pub enum LineAnnotationType {
    /// The whole annotation lies on this line.
    Singleline,
    /// An annotation over several lines starts on this line; the number is
    /// the column of the gutter, from 1, in which its bracket runs.
    MultilineStart(usize),
    /// An annotation over several lines ends on this line.
    MultilineEnd(usize),
    /// The bracket of an annotation over several lines passes this line.
    MultilineLine(usize),
}

/// An annotation on one line.
#[derive(Debug)]
pub struct LineAnnotation {
    /// Where the annotation starts on the line.
    pub start: Loc,
    /// Where it ends, exclusive.
    pub end: Loc,
    pub kind: AnnotationKind,
    /// Text shown beside the annotation.
    pub label: Option<Vec<char>>,
    pub annotation_type: LineAnnotationType,
    /// Whether the source text itself takes the annotation's colour.
    pub highlight_source: bool,
}

/// A line of an excerpt with the annotations on it.
#[derive(Debug)]
pub struct AnnotatedLineInfo {
    pub line: Vec<char>,
    pub line_index: usize,
    pub annotations: Vec<LineAnnotation>,
}

/// What an annotation on a line holds.
pub struct LineAnn {
    pub start: Loc,
    pub end: Loc,
    pub kind: AnnotationKind,
    pub label: Option<Seq<char>>,
    pub annotation_type: LineAnnotationType,
    pub highlight_source: bool,
}

/// What a line with its annotations holds.
pub struct AnnotatedLine {
    pub line: Seq<char>,
    pub line_index: usize,
    pub annotations: Seq<LineAnn>,
}

impl View for LineAnnotation {
    type V = LineAnn;

    open spec fn view(&self) -> LineAnn {
        LineAnn {
            start: self.start,
            end: self.end,
            kind: self.kind,
            label: match self.label {
                Some(label) => Some(label@),
                None => None,
            },
            annotation_type: self.annotation_type,
            highlight_source: self.highlight_source,
        }
    }
}

/// What each of `anns` holds.
pub open spec fn ann_views(anns: Seq<LineAnnotation>) -> Seq<LineAnn> {
    Seq::new(anns.len(), |k: int| anns[k]@)
}

impl View for AnnotatedLineInfo {
    type V = AnnotatedLine;

    open spec fn view(&self) -> AnnotatedLine {
        AnnotatedLine {
            line: self.line@,
            line_index: self.line_index,
            annotations: ann_views(self.annotations@),
        }
    }
}

/// What each of `lines` holds.
pub open spec fn annotated_views(lines: Seq<AnnotatedLineInfo>) -> Seq<AnnotatedLine> {
    Seq::new(lines.len(), |k: int| lines[k]@)
}

impl LineAnnotationType {
    /// 1 for the start of a bracket in gutter column `depth`, -1 for its
    /// end, 0 for everything else.
    pub open spec fn bracket_sign(self, depth: usize) -> int {
        match self {
            LineAnnotationType::MultilineStart(d) => if d == depth {
                1
            } else {
                0
            },
            LineAnnotationType::MultilineEnd(d) => if d == depth {
                -1
            } else {
                0
            },
            _ => 0,
        }
    }
}

/// Bracket starts less bracket ends in gutter column `depth` among `anns`.
pub open spec fn bracket_balance(anns: Seq<LineAnn>, depth: usize) -> int
    decreases anns.len(),
{
    if anns.len() == 0 {
        0
    } else {
        bracket_balance(anns.drop_last(), depth) + anns.last().annotation_type.bracket_sign(depth)
    }
}

/// Bracket starts less bracket ends in gutter column `depth` on all of `lines`.
pub open spec fn total_balance(lines: Seq<AnnotatedLine>, depth: usize) -> int
    decreases lines.len(),
{
    if lines.len() == 0 {
        0
    } else {
        total_balance(lines.drop_last(), depth) + bracket_balance(lines.last().annotations, depth)
    }
}

/// The balance of two lists in a row is the sum of both.
pub proof fn lemma_balance_concat(a: Seq<LineAnn>, b: Seq<LineAnn>, depth: usize)
    ensures
        bracket_balance(a + b, depth) == bracket_balance(a, depth) + bracket_balance(b, depth),
    decreases b.len(),
{
    if b.len() == 0 {
        assert(a + b =~= a);
    } else {
        assert((a + b).drop_last() =~= a + b.drop_last());
        lemma_balance_concat(a, b.drop_last(), depth);
    }
}

/// One more annotation changes the balance by what it is.
pub proof fn lemma_balance_insert(anns: Seq<LineAnn>, at: int, x: LineAnn, depth: usize)
    requires
        0 <= at <= anns.len(),
    ensures
        bracket_balance(anns.insert(at, x), depth) == bracket_balance(anns, depth)
            + x.annotation_type.bracket_sign(depth),
{
    reveal_with_fuel(bracket_balance, 2);
    assert(anns.insert(at, x) =~= anns.take(at) + (seq![x] + anns.skip(at)));
    assert(anns =~= anns.take(at) + anns.skip(at));
    assert(seq![x].drop_last() =~= Seq::<LineAnn>::empty());
    lemma_balance_concat(anns.take(at), anns.skip(at), depth);
    lemma_balance_concat(seq![x], anns.skip(at), depth);
    lemma_balance_concat(anns.take(at), seq![x] + anns.skip(at), depth);
}

/// The balance of two lists of lines in a row is the sum of both.
pub proof fn lemma_total_concat(a: Seq<AnnotatedLine>, b: Seq<AnnotatedLine>, depth: usize)
    ensures
        total_balance(a + b, depth) == total_balance(a, depth) + total_balance(b, depth),
    decreases b.len(),
{
    if b.len() == 0 {
        assert(a + b =~= a);
    } else {
        assert((a + b).drop_last() =~= a + b.drop_last());
        lemma_total_concat(a, b.drop_last(), depth);
    }
}

/// Replacing one line changes the total by what that line's balance changes.
pub proof fn lemma_total_update(lines: Seq<AnnotatedLine>, at: int, line: AnnotatedLine, depth: usize)
    requires
        0 <= at < lines.len(),
    ensures
        total_balance(lines.update(at, line), depth) == total_balance(lines, depth)
            - bracket_balance(lines[at].annotations, depth) + bracket_balance(line.annotations, depth),
{
    reveal_with_fuel(total_balance, 2);
    let new = lines.update(at, line);
    assert(lines =~= lines.take(at) + (seq![lines[at]] + lines.skip(at + 1)));
    assert(new =~= lines.take(at) + (seq![line] + lines.skip(at + 1)));
    assert(seq![lines[at]].drop_last() =~= Seq::<AnnotatedLine>::empty());
    assert(seq![line].drop_last() =~= Seq::<AnnotatedLine>::empty());
    lemma_total_concat(seq![lines[at]], lines.skip(at + 1), depth);
    lemma_total_concat(seq![line], lines.skip(at + 1), depth);
    lemma_total_concat(lines.take(at), seq![lines[at]] + lines.skip(at + 1), depth);
    lemma_total_concat(lines.take(at), seq![line] + lines.skip(at + 1), depth);
}

impl LineAnn {
    /// Whether the annotation is a primary one.
    pub open spec fn primary(self) -> bool {
        self.kind == AnnotationKind::Primary
    }

    /// Whether this annotation only marks that a bracket passes the line.
    pub open spec fn line_placeholder(self) -> bool {
        self.annotation_type is MultilineLine
    }

    /// Columns between the two ends of the annotation.
    pub open spec fn width(self) -> usize {
        if self.end.display >= self.start.display {
            (self.end.display - self.start.display) as usize
        } else {
            (self.start.display - self.end.display) as usize
        }
    }

    /// Whether there is a label with text in it.
    pub open spec fn labelled(self) -> bool {
        match self.label {
            Some(label) => label.len() > 0,
            None => false,
        }
    }

    /// Whether the annotation is an end of a bracket, which needs a row of its own.
    pub open spec fn bracket_end(self) -> bool {
        self.annotation_type is MultilineStart || self.annotation_type is MultilineEnd
    }

}

impl LineAnnotation {
    /// Whether the annotation is a primary one.
    pub fn is_primary(&self) -> (b: bool)
        ensures
            b == self@.primary(),
    {
        self.kind.is_primary()
    }

    /// Whether this annotation only marks that a bracket passes the line.
    pub fn is_line(&self) -> (b: bool)
        ensures
            b == self@.line_placeholder(),
    {
        match self.annotation_type {
            LineAnnotationType::MultilineLine(_) => true,
            _ => false,
        }
    }

    /// Columns between the two ends of the annotation.
    pub fn len(&self) -> (n: usize)
        ensures
            n == self@.width(),
    {
        if self.end.display >= self.start.display {
            self.end.display - self.start.display
        } else {
            self.start.display - self.end.display
        }
    }

    /// Whether there is a label with text in it.
    pub fn has_label(&self) -> (b: bool)
        ensures
            b == self@.labelled(),
    {
        match &self.label {
            Some(label) => label.len() > 0,
            None => false,
        }
    }

    /// Whether the annotation is an end of a bracket, which needs a row of its own.
    pub fn takes_space(&self) -> (b: bool)
        ensures
            b == self@.bracket_end(),
    {
        match self.annotation_type {
            LineAnnotationType::MultilineStart(_) => true,
            LineAnnotationType::MultilineEnd(_) => true,
            _ => false,
        }
    }

}

/// Whether the ranges `a_start..a_end` and `b_start..b_end` have a point in
/// common; with `inclusive`, the ranges include their ends.
pub open spec fn num_overlap_spec(
    a_start: usize,
    a_end: usize,
    b_start: usize,
    b_end: usize,
    inclusive: bool,
) -> bool {
    let extra: int = if inclusive {
        1
    } else {
        0
    };
    (b_start <= a_start && a_start < b_end + extra) || (a_start <= b_start && b_start < a_end
        + extra)
}

/// Whether the two ranges have a point in common.
#[verifier::when_used_as_spec(num_overlap_spec)]
pub fn num_overlap(a_start: usize, a_end: usize, b_start: usize, b_end: usize, inclusive: bool) -> (b:
    bool)
    ensures
        b == num_overlap_spec(a_start, a_end, b_start, b_end, inclusive),
{
    if inclusive {
        (b_start <= a_start && a_start <= b_end) || (a_start <= b_start && b_start <= a_end)
    } else {
        (b_start <= a_start && a_start < b_end) || (a_start <= b_start && b_start < a_end)
    }
}

/// Whether `a1`, made `padding` columns longer, and `a2` share a column.
pub open spec fn overlaps_spec(a1: LineAnn, a2: LineAnn, padding: usize) -> bool {
    num_overlap_spec(
        a1.start.display,
        a1.end.display.saturating_add(padding),
        a2.start.display,
        a2.end.display,
        false,
    )
}

/// Whether `a1`, made `padding` columns longer, and `a2` share a column.
pub fn overlaps(a1: &LineAnnotation, a2: &LineAnnotation, padding: usize) -> (b: bool)
    ensures
        b == overlaps_spec(a1@, a2@, padding),
{
    num_overlap(
        a1.start.display,
        a1.end.display.saturating_add(padding),
        a2.start.display,
        a2.end.display,
        false,
    )
}

} // verus!
