//! From the annotations of an excerpt to the annotations of each of its
//! lines: single-line annotations go to their line, and an annotation over
//! several lines becomes a bracket in the gutter.

use crate::renderer::line_annotation::{
    ann_views, annotated_views, lemma_balance_insert, lemma_total_concat,
    lemma_total_update, num_overlap, num_overlap_spec, total_balance, AnnotatedLine,
    AnnotatedLineInfo, LineAnn, LineAnnotation, LineAnnotationType,
};
use crate::renderer::title::{string_of, text_of};
use crate::snippet::{Annotation, AnnotationKind, Span};
use crate::source_map::{Loc, SourceMap, SourceMapView};
use crate::text::{byte_len, chars_of, slice_of, starts_with, starts_with_spec, trim, trim_spec};
use vstd::prelude::*;

verus! {

/// An annotation that starts on one line and ends on another.
#[derive(Debug)]
pub struct MultilineAnnotation {
    pub start: Loc,
    pub end: Loc,
    pub kind: AnnotationKind,
    pub label: Option<Vec<char>>,
    pub highlight_source: bool,
}

/// What an annotation over several lines holds.
pub struct MultiAnn {
    pub start: Loc,
    pub end: Loc,
    pub kind: AnnotationKind,
    pub label: Option<Seq<char>>,
    pub highlight_source: bool,
}

/// What an annotation of an excerpt holds.
pub struct AnnotationView {
    pub span: Span,
    pub label: Option<Seq<char>>,
    pub kind: AnnotationKind,
    pub highlight_source: bool,
}

impl View for MultilineAnnotation {
    type V = MultiAnn;

    open spec fn view(&self) -> MultiAnn {
        MultiAnn {
            start: self.start,
            end: self.end,
            kind: self.kind,
            label: text_of(self.label),
            highlight_source: self.highlight_source,
        }
    }
}

impl View for Annotation {
    type V = AnnotationView;

    open spec fn view(&self) -> AnnotationView {
        AnnotationView {
            span: self.span,
            label: string_of(self.label),
            kind: self.kind,
            highlight_source: self.highlight_source,
        }
    }
}

/// What each of `anns` holds.
pub open spec fn multi_views(anns: Seq<MultilineAnnotation>) -> Seq<MultiAnn> {
    Seq::new(anns.len(), |k: int| anns[k]@)
}

/// What each of `anns` holds.
pub open spec fn annotation_views(anns: Seq<Annotation>) -> Seq<AnnotationView> {
    Seq::new(anns.len(), |k: int| anns[k]@)
}

/// How an annotation over several lines is drawn.
#[derive(Clone, Copy, Debug)]
pub struct Placement {
    /// Column of the gutter, from 1, in which the bracket runs.
    pub depth: usize,
    /// A later annotation has the same two ends: this one draws no bracket
    /// of its own, only its label.
    pub overlaps_exactly: bool,
    /// The annotation, or an earlier one with the same two ends, is primary.
    pub primary: bool,
}

/// The placement with these parts.
pub open spec fn placement(depth: usize, overlaps_exactly: bool, primary: bool) -> Placement {
    Placement { depth, overlaps_exactly, primary }
}

/// The position with `display` one larger.
pub open spec fn one_wider(l: Loc) -> Loc {
    Loc { line: l.line, char: l.char, display: l.display.saturating_add(1), byte: l.byte }
}

/// The position one character, one column and one byte after `l`.
pub open spec fn one_after(l: Loc) -> Loc {
    Loc {
        line: l.line,
        char: l.char.saturating_add(1),
        display: l.display.saturating_add(1),
        byte: l.byte.saturating_add(1),
    }
}

/// The position one character, one column and one byte before `l`.
pub open spec fn one_before(l: Loc) -> Loc {
    Loc {
        line: l.line,
        char: l.char.saturating_sub(1),
        display: l.display.saturating_sub(1),
        byte: l.byte.saturating_sub(1),
    }
}

/// The annotation on a line with these parts.
pub open spec fn line_ann(
    start: Loc,
    end: Loc,
    kind: AnnotationKind,
    label: Option<Seq<char>>,
    annotation_type: LineAnnotationType,
    highlight_source: bool,
) -> LineAnn {
    LineAnn { start, end, kind, label, annotation_type, highlight_source }
}

/// The line with these parts.
pub open spec fn annotated_line(line: Seq<char>, line_index: usize, annotations: Seq<LineAnn>) -> AnnotatedLine {
    AnnotatedLine { line, line_index, annotations }
}

impl MultiAnn {
    /// Whether the two annotations have the same two ends.
    pub open spec fn same_span(self, other: MultiAnn) -> bool {
        self.start == other.start && self.end == other.end
    }

    /// Whether the two annotations have a line in common.
    pub open spec fn lines_overlap(self, other: MultiAnn) -> bool {
        num_overlap_spec(
            self.start.line,
            self.end.line,
            other.start.line,
            other.end.line,
            true,
        )
    }

    /// The mark on the first line: one column wide, where the annotation starts.
    pub open spec fn start_mark(self, depth: usize, kind: AnnotationKind) -> LineAnn {
        line_ann(
            self.start,
            one_after(Loc { line: self.start.line, ..self.start }),
            kind,
            None,
            LineAnnotationType::MultilineStart(depth),
            self.highlight_source,
        )
    }

    /// The mark on the last line: one column wide, where the annotation
    /// ends, with the annotation's label.
    pub open spec fn end_mark(self, depth: usize, kind: AnnotationKind) -> LineAnn {
        line_ann(
            one_before(self.end),
            self.end,
            kind,
            self.label,
            LineAnnotationType::MultilineEnd(depth),
            self.highlight_source,
        )
    }

    /// The mark on a line between the two: nothing but the bracket passing by.
    pub open spec fn line_mark(self, depth: usize, kind: AnnotationKind) -> LineAnn {
        line_ann(
            Loc { line: 0, char: 0, display: 0, byte: 0 },
            Loc { line: 0, char: 0, display: 0, byte: 0 },
            kind,
            None,
            LineAnnotationType::MultilineLine(depth),
            self.highlight_source,
        )
    }

    /// Only the label of the annotation, at its end.
    pub open spec fn label_mark(self, kind: AnnotationKind) -> LineAnn {
        line_ann(
            one_before(self.end),
            self.end,
            kind,
            self.label,
            LineAnnotationType::Singleline,
            self.highlight_source,
        )
    }
}

impl MultilineAnnotation {
    fn has_same_span(&self, other: &MultilineAnnotation) -> (b: bool)
        ensures
            b == self@.same_span(other@),
    {
        self.start == other.start && self.end == other.end
    }

    fn shares_line(&self, other: &MultilineAnnotation) -> (b: bool)
        ensures
            b == self@.lines_overlap(other@),
    {
        num_overlap(self.start.line, self.end.line, other.start.line, other.end.line, true)
    }

    /// The label of the annotation, once more.
    fn label_copy(&self) -> (label: Option<Vec<char>>)
        ensures
            text_of(label) == self@.label,
    {
        match &self.label {
            Some(l) => {
                proof {
                    assert(l@.subrange(0, l@.len() as int) =~= l@);
                }
                Some(slice_of(l, 0, l.len()))
            },
            None => None,
        }
    }

    /// The mark on the first line; see [`MultiAnn::start_mark`].
    pub fn as_start(&self, depth: usize, kind: AnnotationKind) -> (a: LineAnnotation)
        ensures
            a@ == self@.start_mark(depth, kind),
    {
        LineAnnotation {
            start: self.start,
            end: Loc {
                line: self.start.line,
                char: self.start.char.saturating_add(1),
                display: self.start.display.saturating_add(1),
                byte: self.start.byte.saturating_add(1),
            },
            kind,
            label: None,
            annotation_type: LineAnnotationType::MultilineStart(depth),
            highlight_source: self.highlight_source,
        }
    }

    /// The mark on the last line; see [`MultiAnn::end_mark`].
    pub fn as_end(&self, depth: usize, kind: AnnotationKind) -> (a: LineAnnotation)
        ensures
            a@ == self@.end_mark(depth, kind),
    {
        LineAnnotation {
            start: Loc {
                line: self.end.line,
                char: self.end.char.saturating_sub(1),
                display: self.end.display.saturating_sub(1),
                byte: self.end.byte.saturating_sub(1),
            },
            end: self.end,
            kind,
            label: self.label_copy(),
            annotation_type: LineAnnotationType::MultilineEnd(depth),
            highlight_source: self.highlight_source,
        }
    }

    /// The mark on a line between; see [`MultiAnn::line_mark`].
    pub fn as_line(&self, depth: usize, kind: AnnotationKind) -> (a: LineAnnotation)
        ensures
            a@ == self@.line_mark(depth, kind),
    {
        let zero = Loc { line: 0, char: 0, display: 0, byte: 0 };
        LineAnnotation {
            start: zero,
            end: zero,
            kind,
            label: None,
            annotation_type: LineAnnotationType::MultilineLine(depth),
            highlight_source: self.highlight_source,
        }
    }

    fn as_label(&self, kind: AnnotationKind) -> (a: LineAnnotation)
        ensures
            a@ == self@.label_mark(kind),
    {
        LineAnnotation {
            start: Loc {
                line: self.end.line,
                char: self.end.char.saturating_sub(1),
                display: self.end.display.saturating_sub(1),
                byte: self.end.byte.saturating_sub(1),
            },
            end: self.end,
            kind,
            label: self.label_copy(),
            annotation_type: LineAnnotationType::Singleline,
            highlight_source: self.highlight_source,
        }
    }
}

/// Whether one of `anns[from..]` has the same two ends as annotation `i`.
pub open spec fn repeated_from(anns: Seq<MultiAnn>, i: int, from: int) -> bool
    decreases anns.len() - from,
{
    if from >= anns.len() || from < 0 {
        false
    } else {
        anns[from].same_span(anns[i]) || repeated_from(anns, i, from + 1)
    }
}

/// Whether an annotation after `i` has the same two ends as annotation `i`.
pub open spec fn repeated_later(anns: Seq<MultiAnn>, i: int) -> bool {
    repeated_from(anns, i, i + 1)
}

/// Whether one of `anns[..upto]` has the same two ends as annotation `i`
/// and is primary.
pub open spec fn primary_before(anns: Seq<MultiAnn>, i: int, upto: int) -> bool
    decreases upto,
{
    if upto <= 0 {
        false
    } else {
        (anns[upto - 1].same_span(anns[i]) && anns[upto - 1].kind == AnnotationKind::Primary)
            || primary_before(anns, i, upto - 1)
    }
}

/// Whether annotation `i`, or one before it with the same two ends, is primary.
pub open spec fn primary_so_far(anns: Seq<MultiAnn>, i: int) -> bool {
    anns[i].kind == AnnotationKind::Primary || primary_before(anns, i, i)
}

/// Whether a bracket among `anns[..upto]` that shares a line with
/// annotation `k` runs in column `depth`.
pub open spec fn col_taken(anns: Seq<MultiAnn>, k: int, depth: usize, upto: int) -> bool
    decreases k, 0int, upto,
{
    if upto <= 0 || upto > k {
        false
    } else {
        (!repeated_later(anns, upto - 1) && anns[upto - 1].lines_overlap(anns[k]) && depth_of(
            anns,
            upto - 1,
        ) == depth) || col_taken(anns, k, depth, upto - 1)
    }
}

/// The leftmost column from `depth` on that no earlier bracket sharing a
/// line with annotation `k` runs in.
pub open spec fn first_free(anns: Seq<MultiAnn>, k: int, depth: usize) -> usize
    decreases k, 1int, k + 1 - depth,
{
    if 0 <= k && depth <= k && depth < usize::MAX && col_taken(anns, k, depth, k) {
        first_free(anns, k, (depth + 1) as usize)
    } else {
        depth
    }
}

/// The column of the gutter in which the bracket of annotation `k` runs.
pub open spec fn depth_of(anns: Seq<MultiAnn>, k: int) -> usize
    decreases k, 2int, 0int,
{
    first_free(anns, k, 1)
}

/// How annotation `k` is drawn.
pub open spec fn place_of(anns: Seq<MultiAnn>, k: int) -> Placement {
    placement(depth_of(anns, k), repeated_later(anns, k), primary_so_far(anns, k))
}

/// How each of `anns` is drawn.
///
/// An annotation whose two ends a later one repeats draws no bracket. Every
/// other one takes the leftmost column that no earlier bracket sharing a
/// line with it runs in.
pub open spec fn placements(anns: Seq<MultiAnn>) -> Seq<Placement> {
    Seq::new(anns.len(), |k: int| place_of(anns, k))
}

/// Gives every annotation over several lines its place in the gutter; see [`placements`].
pub fn place_multiline(anns: &Vec<MultilineAnnotation>) -> (placed: Vec<Placement>)
    ensures
        placed@ == placements(multi_views(anns@)),
        placed@.len() == anns@.len(),
        forall|i: int| 0 <= i < placed@.len() ==> (#[trigger] placed@[i]).depth <= i + 1,
{
    let n = anns.len();
    let ghost views = multi_views(anns@);
    let mut placed: Vec<Placement> = Vec::new();
    let mut k: usize = 0;
    while k < n
        invariant
            n == anns@.len(),
            views == multi_views(anns@),
            k <= n,
            placed@.len() == k,
            forall|i: int| 0 <= i < k ==> (#[trigger] placed@[i]) == place_of(views, i),
            forall|i: int| 0 <= i < k ==> (#[trigger] placed@[i]).depth <= i + 1,
        decreases n - k,
    {
        // Is there a later annotation with the same two ends?
        let mut exact = false;
        let mut j: usize = k + 1;
        while j < n
            invariant
                n == anns@.len(),
                views == multi_views(anns@),
                k < j <= n,
                repeated_from(views, k as int, k + 1) == (exact || repeated_from(
                    views,
                    k as int,
                    j as int,
                )),
            decreases n - j,
        {
            if anns[j].has_same_span(&anns[k]) {
                exact = true;
            }
            j += 1;
        }
        // Is this one, or an earlier one with the same two ends, primary?
        let mut primary = anns[k].kind.is_primary();
        let mut j: usize = 0;
        while j < k
            invariant
                n == anns@.len(),
                views == multi_views(anns@),
                j <= k < n,
                primary == (views[k as int].kind == AnnotationKind::Primary || primary_before(
                    views,
                    k as int,
                    j as int,
                )),
            decreases k - j,
        {
            if anns[j].has_same_span(&anns[k]) && anns[j].kind.is_primary() {
                primary = true;
            }
            j += 1;
        }
        // The leftmost column that no earlier bracket on a shared line runs in.
        let mut depth: usize = 1;
        let mut found = false;
        while depth <= k && !found
            invariant
                n == anns@.len(),
                views == multi_views(anns@),
                k < n,
                placed@.len() == k,
                1 <= depth <= k + 1,
                forall|i: int| 0 <= i < k ==> (#[trigger] placed@[i]) == place_of(views, i),
                !found ==> first_free(views, k as int, depth) == first_free(views, k as int, 1),
                found ==> depth == first_free(views, k as int, 1),
            decreases k + 1 - depth, !found as int,
        {
            let mut taken = false;
            let mut j: usize = 0;
            while j < k
                invariant
                    n == anns@.len(),
                    views == multi_views(anns@),
                    j <= k < n,
                    placed@.len() == k,
                    forall|i: int| 0 <= i < k ==> (#[trigger] placed@[i]) == place_of(views, i),
                    taken == col_taken(views, k as int, depth, j as int),
                decreases k - j,
            {
                if !placed[j].overlaps_exactly && anns[j].shares_line(&anns[k]) && placed[j].depth
                    == depth {
                    taken = true;
                }
                j += 1;
            }
            if taken {
                depth += 1;
            } else {
                found = true;
            }
        }
        placed.push(Placement { depth, overlaps_exactly: exact, primary });
        k += 1;
    }
    proof {
        assert(placed@ =~= placements(views));
    }
    placed
}

/// The rightmost column of the gutter that a bracket runs in, 0 where there is none.
pub open spec fn max_depth_spec(placed: Seq<Placement>) -> usize
    decreases placed.len(),
{
    if placed.len() == 0 {
        0
    } else {
        let rest = max_depth_spec(placed.drop_last());
        if !placed.last().overlaps_exactly && placed.last().depth > rest {
            placed.last().depth
        } else {
            rest
        }
    }
}

/// The rightmost column of the gutter that a bracket runs in.
pub fn max_depth(placed: &Vec<Placement>) -> (m: usize)
    requires
        forall|i: int| 0 <= i < placed@.len() ==> (#[trigger] placed@[i]).depth <= i + 1,
    ensures
        m == max_depth_spec(placed@),
        m <= placed@.len(),
{
    let mut m: usize = 0;
    let mut i: usize = 0;
    assert(placed@.take(0) =~= Seq::<Placement>::empty());
    while i < placed.len()
        invariant
            i <= placed.len(),
            m <= i,
            forall|i: int| 0 <= i < placed@.len() ==> (#[trigger] placed@[i]).depth <= i + 1,
            m == max_depth_spec(placed@.take(i as int)),
        decreases placed.len() - i,
    {
        proof {
            assert(placed@.take(i + 1).drop_last() =~= placed@.take(i as int));
        }
        if !placed[i].overlaps_exactly && placed[i].depth > m {
            m = placed[i].depth;
        }
        i += 1;
    }
    proof {
        assert(placed@.take(placed@.len() as int) =~= placed@);
    }
    m
}

/// Whether the text, without the whitespace around it, is more than nothing,
/// a single bracket, or an ordinary comment. Documentation comments count.
pub open spec fn meaningful_line(s: Seq<char>) -> bool {
    let t = trim_spec(s);
    let comment = starts_with_spec(t, seq!['/', '/']) && !(starts_with_spec(t, seq!['/', '/', '/'])
        || starts_with_spec(t, seq!['/', '/', '!']));
    let bare = t.len() == 0 || (t.len() == 1 && (t[0] == '{' || t[0] == '}' || t[0] == '(' || t[0]
        == ')' || t[0] == '[' || t[0] == ']'));
    !comment && !bare
}

/// Whether the line says something; see [`meaningful_line`].
pub fn is_meaningful_line(s: &Vec<char>) -> (b: bool)
    ensures
        b == meaningful_line(s@),
{
    let t = trim(s);
    let slashes: Vec<char> = vec!['/', '/'];
    let doc_outer: Vec<char> = vec!['/', '/', '/'];
    let doc_inner: Vec<char> = vec!['/', '/', '!'];
    proof {
        assert(slashes@ =~= seq!['/', '/']);
        assert(doc_outer@ =~= seq!['/', '/', '/']);
        assert(doc_inner@ =~= seq!['/', '/', '!']);
    }
    let comment = starts_with(&t, &slashes) && !(starts_with(&t, &doc_outer) || starts_with(
        &t,
        &doc_inner,
    ));
    let bare = t.len() == 0 || (t.len() == 1 && (t[0] == '{' || t[0] == '}' || t[0] == '(' || t[0]
        == ')' || t[0] == '[' || t[0] == ']'));
    !comment && !bare
}

/// Whether `a` comes before `b`: by line, then character, then column, then byte.
pub open spec fn loc_before(a: Loc, b: Loc) -> bool {
    a.line < b.line || (a.line == b.line && (a.char < b.char || (a.char == b.char && (a.display
        < b.display || (a.display == b.display && a.byte < b.byte)))))
}

/// Whether `a` comes before `b`.
pub fn is_loc_before(a: &Loc, b: &Loc) -> (r: bool)
    ensures
        r == loc_before(*a, *b),
{
    a.line < b.line || (a.line == b.line && (a.char < b.char || (a.char == b.char && (a.display
        < b.display || (a.display == b.display && a.byte < b.byte)))))
}

/// Position of the first of `lines[k..]` with the number `line_index`, or
/// the number of lines.
pub open spec fn line_pos(lines: Seq<AnnotatedLine>, line_index: usize, k: int) -> int
    decreases lines.len() - k,
{
    if k >= lines.len() || k < 0 {
        lines.len() as int
    } else if lines[k].line_index == line_index {
        k
    } else {
        line_pos(lines, line_index, k + 1)
    }
}

/// Where an annotation that starts at `start` goes among `anns[k..]`:
/// before the first that starts after it, or at the end.
pub open spec fn insert_pos(anns: Seq<LineAnn>, start: Loc, k: int) -> int
    decreases anns.len() - k,
{
    if k >= anns.len() || k < 0 {
        anns.len() as int
    } else if loc_before(start, anns[k].start) {
        k
    } else {
        insert_pos(anns, start, k + 1)
    }
}

/// `lines` with `ann` put on the first line with the number `line_index`,
/// after the annotations of that line that do not start after it. Without
/// such a line nothing changes.
pub open spec fn with_annotation(lines: Seq<AnnotatedLine>, line_index: usize, ann: LineAnn) -> Seq<
    AnnotatedLine,
> {
    let p = line_pos(lines, line_index, 0);
    if 0 <= p < lines.len() {
        lines.update(
            p,
            annotated_line(
                lines[p].line,
                lines[p].line_index,
                lines[p].annotations.insert(insert_pos(lines[p].annotations, ann.start, 0), ann),
            ),
        )
    } else {
        lines
    }
}

/// Position of the first of `infos` with the number `line_index`.
fn find_info(infos: &Vec<AnnotatedLineInfo>, line_index: usize) -> (found: Option<usize>)
    ensures
        found matches Some(p) ==> p < infos@.len() && p == line_pos(
            annotated_views(infos@),
            line_index,
            0,
        ),
        found is None ==> line_pos(annotated_views(infos@), line_index, 0) == infos@.len(),
{
    let mut p: usize = 0;
    while p < infos.len()
        invariant
            p <= infos.len(),
            line_pos(annotated_views(infos@), line_index, p as int) == line_pos(
                annotated_views(infos@),
                line_index,
                0,
            ),
        decreases infos.len() - p,
    {
        if infos[p].line_index == line_index {
            return Some(p);
        }
        p += 1;
    }
    None
}

/// Puts `ann` on the line with the number `line_index`.
fn add_annotation(infos: &mut Vec<AnnotatedLineInfo>, line_index: usize, ann: LineAnnotation)
    ensures
        annotated_views(final(infos)@) == with_annotation(
            annotated_views(old(infos)@),
            line_index,
            ann@,
        ),
        final(infos)@.len() == old(infos)@.len(),
{
    let p = match find_info(infos, line_index) {
        Some(p) => p,
        None => {
            return ;
        },
    };
    let ghost before = annotated_views(infos@);
    let mut info = infos.remove(p);
    let ghost old_anns = ann_views(info.annotations@);
    let ghost old_info = info@;
    let mut at: usize = 0;
    while at < info.annotations.len() && !is_loc_before(&ann.start, &info.annotations[at].start)
        invariant
            at <= info.annotations.len(),
            old_anns == ann_views(info.annotations@),
            insert_pos(old_anns, ann.start, at as int) == insert_pos(old_anns, ann.start, 0),
        decreases info.annotations.len() - at,
    {
        at += 1;
    }
    let ghost added = ann@;
    info.annotations.insert(at, ann);
    let ghost new_info = info@;
    infos.insert(p, info);
    proof {
        assert(old_info == before[p as int]);
        assert(new_info.annotations =~= old_anns.insert(at as int, added));
        assert(annotated_views(infos@) =~= before.update(
            p as int,
            annotated_line(old_info.line, old_info.line_index, old_anns.insert(at as int, added)),
        ));
    }
}

/// The line before `l`, from `l` down to after `start`, that says
/// something; `start` where there is none.
pub open spec fn last_meaningful(sm: SourceMapView, l: usize, start: usize) -> usize
    decreases l,
{
    if l <= start {
        start
    } else if (match sm.line_text((l - 1) as usize) {
        Some(text) => meaningful_line(text),
        None => false,
    }) {
        l
    } else {
        last_meaningful(sm, (l - 1) as usize, start)
    }
}

/// `lines` with `ann` put on each of the lines with the numbers `line..until`.
pub open spec fn passing(lines: Seq<AnnotatedLine>, line: usize, until: usize, ann: LineAnn) -> Seq<
    AnnotatedLine,
>
    decreases until - line,
{
    if line >= until {
        lines
    } else {
        passing(with_annotation(lines, line, ann), (line + 1) as usize, until, ann)
    }
}

/// Whether `a` goes before `b` in the order in which brackets are placed:
/// by first line, then the one that ends later, then by first byte.
pub open spec fn multi_before(a: MultiAnn, b: MultiAnn) -> bool {
    a.start.line < b.start.line || (a.start.line == b.start.line && (a.end.line > b.end.line || (
    a.end.line == b.end.line && a.start.byte < b.start.byte)))
}

/// Where `item` goes among `multis[k..]`.
pub open spec fn multi_pos(multis: Seq<MultiAnn>, item: MultiAnn, k: int) -> int
    decreases multis.len() - k,
{
    if k >= multis.len() || k < 0 {
        multis.len() as int
    } else if multi_before(item, multis[k]) {
        k
    } else {
        multi_pos(multis, item, k + 1)
    }
}

fn multiline_before(a: &MultilineAnnotation, b: &MultilineAnnotation) -> (r: bool)
    ensures
        r == multi_before(a@, b@),
{
    a.start.line < b.start.line || (a.start.line == b.start.line && (a.end.line > b.end.line || (
    a.end.line == b.end.line && a.start.byte < b.start.byte)))
}

impl SourceMapView {
    /// The lines of the source, with no annotation on them.
    pub open spec fn blank_lines(self) -> Seq<AnnotatedLine> {
        Seq::new(
            self.lines.len(),
            |i: int| annotated_line(self.lines[i].line, self.lines[i].line_index, Seq::empty()),
        )
    }

    /// The lines and the annotations over several lines after the
    /// annotations `annotations[k..]` were sorted in: an annotation within
    /// one line goes to that line, and a span without width gets one column.
    pub open spec fn sorted_in(
        self,
        annotations: Seq<AnnotationView>,
        k: int,
        lines: Seq<AnnotatedLine>,
        multis: Seq<MultiAnn>,
    ) -> (Seq<AnnotatedLine>, Seq<MultiAnn>)
        decreases annotations.len() - k,
    {
        if k >= annotations.len() || k < 0 {
            (lines, multis)
        } else {
            let a = annotations[k];
            let locs = self.locations_of(a.span);
            let lo = locs.0;
            let hi = if lo.display == locs.1.display && lo.line == locs.1.line {
                one_wider(locs.1)
            } else {
                locs.1
            };
            if lo.line == hi.line {
                self.sorted_in(
                    annotations,
                    k + 1,
                    with_annotation(
                        lines,
                        lo.line,
                        line_ann(
                            lo,
                            hi,
                            a.kind,
                            a.label,
                            LineAnnotationType::Singleline,
                            a.highlight_source,
                        ),
                    ),
                    multis,
                )
            } else {
                let item = MultiAnn {
                    start: lo,
                    end: hi,
                    kind: a.kind,
                    label: a.label,
                    highlight_source: a.highlight_source,
                };
                self.sorted_in(
                    annotations,
                    k + 1,
                    lines,
                    multis.insert(multi_pos(multis, item, 0), item),
                )
            }
        }
    }

    /// The lines after the bracket of one annotation was put on them.
    ///
    /// An annotation that a later one repeats leaves only its label, at its
    /// end. Every other one leaves the start of its bracket on its first
    /// line, the bracket passing by on up to four lines after that, but not
    /// on a tail of lines that say nothing, and on the line before its
    /// last if that says something, and the end of its bracket on its last line.
    pub open spec fn bracket_of(self, lines: Seq<AnnotatedLine>, ann: MultiAnn, place: Placement) -> Seq<
        AnnotatedLine,
    > {
        let kind = if place.primary {
            AnnotationKind::Primary
        } else {
            ann.kind
        };
        if place.overlaps_exactly {
            with_annotation(lines, ann.end.line, ann.label_mark(kind))
        } else if line_pos(lines, ann.start.line, 0) < lines.len() && line_pos(
            lines,
            ann.end.line,
            0,
        ) < lines.len() {
            let started = with_annotation(lines, ann.start.line, ann.start_mark(place.depth, kind));
            let after = ann.start.line.saturating_add(4);
            let middle = if after < ann.end.line {
                after
            } else {
                ann.end.line
            };
            let until = last_meaningful(self, middle, ann.start.line);
            let passed = passing(
                started,
                ann.start.line.saturating_add(1),
                until,
                ann.line_mark(place.depth, kind),
            );
            let line_end = ann.end.line.saturating_sub(1);
            let end_says_nothing = match self.line_text(line_end) {
                Some(text) => !meaningful_line(text),
                None => false,
            };
            let before_end = if middle < line_end && !end_says_nothing {
                with_annotation(passed, line_end, ann.line_mark(place.depth, kind))
            } else {
                passed
            };
            with_annotation(before_end, ann.end.line, ann.end_mark(place.depth, kind))
        } else {
            lines
        }
    }

    /// The lines after the brackets of the annotations `multis[m..]` were
    /// put on them.
    pub open spec fn brackets_from(
        self,
        lines: Seq<AnnotatedLine>,
        multis: Seq<MultiAnn>,
        placed: Seq<Placement>,
        m: int,
    ) -> Seq<AnnotatedLine>
        decreases multis.len() - m,
    {
        if m >= multis.len() || m < 0 {
            lines
        } else {
            self.brackets_from(self.bracket_of(lines, multis[m], placed[m]), multis, placed, m + 1)
        }
    }

    /// The lines of an excerpt with the annotations on each, and the count
    /// of gutter columns that brackets need. With `fold`, only the lines
    /// with an annotation on them are kept.
    pub open spec fn annotated(self, annotations: Seq<AnnotationView>, fold: bool) -> (
        usize,
        Seq<AnnotatedLine>,
    ) {
        let sorted = self.sorted_in(annotations, 0, self.blank_lines(), Seq::empty());
        let placed = placements(sorted.1);
        let lines = self.brackets_from(sorted.0, sorted.1, placed, 0);
        (max_depth_spec(placed), kept(lines, fold, 0))
    }
}

/// The lines `lines[k..]`, with `fold` without those that have no annotation.
pub open spec fn kept(lines: Seq<AnnotatedLine>, fold: bool, k: int) -> Seq<AnnotatedLine>
    decreases lines.len() - k,
{
    if k >= lines.len() || k < 0 {
        Seq::empty()
    } else if !fold || lines[k].annotations.len() > 0 {
        seq![lines[k]] + kept(lines, fold, k + 1)
    } else {
        kept(lines, fold, k + 1)
    }
}

impl SourceMap {
    /// Puts the bracket of one annotation on the lines.
    fn add_bracket(&self, infos: &mut Vec<AnnotatedLineInfo>, ann: &MultilineAnnotation, place: Placement)
        requires
            self.wf(),
        ensures
            annotated_views(final(infos)@) == self@.bracket_of(
                annotated_views(old(infos)@),
                ann@,
                place,
            ),
    {
        let kind = if place.primary {
            AnnotationKind::Primary
        } else {
            ann.kind
        };
        if place.overlaps_exactly {
            // A later annotation draws the bracket: only the label is left.
            add_annotation(infos, ann.end.line, ann.as_label(kind));
        } else if find_info(infos, ann.start.line).is_some() && find_info(
            infos,
            ann.end.line,
        ).is_some() {
            add_annotation(infos, ann.start.line, ann.as_start(place.depth, kind));
            // Up to four lines after the first are shown, but not a tail
            // of lines that say nothing.
            let after = ann.start.line.saturating_add(4);
            let middle = if after < ann.end.line {
                after
            } else {
                ann.end.line
            };
            let mut l = middle;
            let mut found = false;
            while l > ann.start.line && !found
                invariant
                    self.wf(),
                    !found ==> last_meaningful(self@, l, ann.start.line) == last_meaningful(
                        self@,
                        middle,
                        ann.start.line,
                    ),
                    found ==> l == last_meaningful(self@, middle, ann.start.line),
                decreases l, !found as int,
            {
                let meaningful = match self.get_line(l - 1) {
                    Some(text) => is_meaningful_line(text),
                    None => false,
                };
                if meaningful {
                    found = true;
                } else {
                    l -= 1;
                }
            }
            let until = if found {
                l
            } else {
                ann.start.line
            };
            let mut line = ann.start.line.saturating_add(1);
            let ghost started = annotated_views(infos@);
            let ghost first = line;
            while line < until
                invariant
                    passing(
                        annotated_views(infos@),
                        line,
                        until,
                        ann@.line_mark(place.depth, kind),
                    ) == passing(started, first, until, ann@.line_mark(place.depth, kind)),
                decreases until - line,
            {
                add_annotation(infos, line, ann.as_line(place.depth, kind));
                line += 1;
            }
            let line_end = ann.end.line.saturating_sub(1);
            let end_says_nothing = match self.get_line(line_end) {
                Some(text) => !is_meaningful_line(text),
                None => false,
            };
            if middle < line_end && !end_says_nothing {
                add_annotation(infos, line_end, ann.as_line(place.depth, kind));
            }
            add_annotation(infos, ann.end.line, ann.as_end(place.depth, kind));
        }
    }

    /// The lines of the excerpt with the annotations on each.
    ///
    /// The first number is the count of gutter columns that brackets need.
    /// With `fold`, only lines with an annotation on them are returned.
    pub fn annotated_lines(&self, annotations: &Vec<Annotation>, fold: bool) -> (out: (
        usize,
        Vec<AnnotatedLineInfo>,
    ))
        requires
            self.wf(),
            forall|i: int|
                0 <= i < annotations@.len() ==> (#[trigger] annotations@[i]).span.end <= byte_len(
                    self.source@,
                ) + 1,
        ensures
            (out.0, annotated_views(out.1@)) == self@.annotated(annotation_views(annotations@), fold),
    {
        let ghost view = self@;
        let ghost inputs = annotation_views(annotations@);
        let mut infos: Vec<AnnotatedLineInfo> = Vec::new();
        let mut i: usize = 0;
        while i < self.lines.len()
            invariant
                i <= self.lines.len(),
                view == self@,
                infos@.len() == i,
                annotated_views(infos@) == view.blank_lines().take(i as int),
            decreases self.lines.len() - i,
        {
            let line = slice_of(&self.lines[i].line, 0, self.lines[i].line.len());
            proof {
                assert(self.lines@[i as int].line@.subrange(0, self.lines@[i as int].line@.len() as int)
                    =~= self.lines@[i as int].line@);
            }
            infos.push(
                AnnotatedLineInfo { line, line_index: self.lines[i].line_index, annotations: Vec::new() },
            );
            proof {
                assert(ann_views(infos@[i as int].annotations@) =~= Seq::<LineAnn>::empty());
                assert(annotated_views(infos@) =~= view.blank_lines().take(i + 1));
            }
            i += 1;
        }
        proof {
            assert(annotated_views(infos@) =~= view.blank_lines());
        }
        let mut multiline: Vec<MultilineAnnotation> = Vec::new();
        let mut a: usize = 0;
        proof {
            assert(multi_views(multiline@) =~= Seq::<MultiAnn>::empty());
        }
        while a < annotations.len()
            invariant
                self.wf(),
                view == self@,
                inputs == annotation_views(annotations@),
                a <= annotations.len(),
                view.sorted_in(inputs, a as int, annotated_views(infos@), multi_views(multiline@))
                    == view.sorted_in(inputs, 0, view.blank_lines(), Seq::empty()),
            decreases annotations.len() - a,
        {
            let annotation = &annotations[a];
            proof {
                assert(inputs[a as int] == annotation@);
            }
            let (lo, end) = self.span_to_locations(annotation.span);
            // A span without width still gets one column to point at.
            let hi = if lo.display == end.display && lo.line == end.line {
                Loc {
                    line: end.line,
                    char: end.char,
                    display: end.display.saturating_add(1),
                    byte: end.byte,
                }
            } else {
                end
            };
            let label = match &annotation.label {
                Some(text) => Some(chars_of(text.as_str())),
                None => None,
            };
            if lo.line == hi.line {
                let line_ann = LineAnnotation {
                    start: lo,
                    end: hi,
                    kind: annotation.kind,
                    label,
                    annotation_type: LineAnnotationType::Singleline,
                    highlight_source: annotation.highlight_source,
                };
                add_annotation(&mut infos, lo.line, line_ann);
            } else {
                let item = MultilineAnnotation {
                    start: lo,
                    end: hi,
                    kind: annotation.kind,
                    label,
                    highlight_source: annotation.highlight_source,
                };
                // Keep the list in the order of the first line, the longer
                // annotation first, then the first byte.
                let mut at: usize = 0;
                let ghost before = multi_views(multiline@);
                while at < multiline.len() && !multiline_before(&item, &multiline[at])
                    invariant
                        at <= multiline.len(),
                        before == multi_views(multiline@),
                        multi_pos(before, item@, at as int) == multi_pos(before, item@, 0),
                    decreases multiline.len() - at,
                {
                    at += 1;
                }
                let ghost added = item@;
                multiline.insert(at, item);
                proof {
                    assert(multi_views(multiline@) =~= before.insert(at as int, added));
                }
            }
            a += 1;
        }
        let placed = place_multiline(&multiline);
        let depth_count = max_depth(&placed);
        let ghost sorted = annotated_views(infos@);
        let mut m: usize = 0;
        while m < multiline.len()
            invariant
                self.wf(),
                view == self@,
                m <= multiline.len(),
                placed@.len() == multiline@.len(),
                view.brackets_from(annotated_views(infos@), multi_views(multiline@), placed@, m as int)
                    == view.brackets_from(sorted, multi_views(multiline@), placed@, 0),
            decreases multiline.len() - m,
        {
            proof {
                assert(multi_views(multiline@)[m as int] == multiline@[m as int]@);
            }
            self.add_bracket(&mut infos, &multiline[m], placed[m]);
            m += 1;
        }
        let ghost all = annotated_views(infos@);
        let mut out: Vec<AnnotatedLineInfo> = Vec::new();
        proof {
            assert(annotated_views(out@) + kept(all, fold, 0) =~= kept(all, fold, 0));
        }
        for info in it: infos
            invariant
                all == annotated_views(it.seq()),
                annotated_views(out@) + kept(all, fold, it.index()) == kept(all, fold, 0),
        {
            let ghost idx = it.index();
            let ghost before = annotated_views(out@);
            let ghost rest = kept(all, fold, idx + 1);
            proof {
                assert(info@ == all[idx]);
                assert(ann_views(info.annotations@).len() == info.annotations@.len());
            }
            if !fold || info.annotations.len() > 0 {
                out.push(info);
                proof {
                    assert(annotated_views(out@) =~= before.push(all[idx]));
                    assert(annotated_views(out@) + rest =~= before + (seq![all[idx]] + rest));
                }
            }
        }
        proof {
            assert(annotated_views(out@) + Seq::<AnnotatedLine>::empty() =~= annotated_views(out@));
        }
        (depth_count, out)
    }
}

/// The column that is found free is free, and not further right than needed.
pub proof fn lemma_first_free(anns: Seq<MultiAnn>, k: int, depth: usize)
    requires
        0 <= k < usize::MAX,
        1 <= depth <= k + 1,
    ensures
        depth <= first_free(anns, k, depth) <= k + 1,
        first_free(anns, k, depth) <= k ==> !col_taken(anns, k, first_free(anns, k, depth), k),
    decreases k + 1 - depth,
{
    if depth <= k && col_taken(anns, k, depth, k) {
        lemma_first_free(anns, k, (depth + 1) as usize);
    }
}

/// A bracket that shares a line and runs in a column takes that column.
pub proof fn lemma_col_taken(anns: Seq<MultiAnn>, k: int, depth: usize, upto: int, i: int)
    requires
        0 <= i < upto <= k,
        !repeated_later(anns, i),
        anns[i].lines_overlap(anns[k]),
        depth_of(anns, i) == depth,
    ensures
        col_taken(anns, k, depth, upto),
    decreases upto,
{
    if i < upto - 1 {
        lemma_col_taken(anns, k, depth, upto - 1, i);
    }
}

/// Brackets never collide: two annotations over several lines that share
/// a line and both draw a bracket run in different columns of the gutter.
pub proof fn lemma_depths_distinct(anns: Seq<MultiAnn>, i: int, j: int)
    requires
        0 <= i < j < anns.len(),
        anns.len() < usize::MAX,
        !repeated_later(anns, i),
        !repeated_later(anns, j),
        anns[i].lines_overlap(anns[j]),
    ensures
        depth_of(anns, i) != depth_of(anns, j),
        1 <= depth_of(anns, i) <= i + 1,
        1 <= depth_of(anns, j) <= j + 1,
{
    lemma_first_free(anns, i, 1);
    lemma_first_free(anns, j, 1);
    if depth_of(anns, i) == depth_of(anns, j) {
        lemma_col_taken(anns, j, depth_of(anns, j), j, i);
    }
}

/// Where a line is found, it has the number that was looked for.
pub proof fn lemma_line_pos(lines: Seq<AnnotatedLine>, line_index: usize, k: int)
    requires
        0 <= k <= lines.len(),
    ensures
        k <= line_pos(lines, line_index, k) <= lines.len(),
        line_pos(lines, line_index, k) < lines.len() ==> lines[line_pos(
            lines,
            line_index,
            k,
        )].line_index == line_index,
    decreases lines.len() - k,
{
    if k < lines.len() && lines[k].line_index != line_index {
        lemma_line_pos(lines, line_index, k + 1);
    }
}

/// An annotation goes to a place among those of its line.
pub proof fn lemma_insert_pos(anns: Seq<LineAnn>, start: Loc, k: int)
    requires
        0 <= k <= anns.len(),
    ensures
        k <= insert_pos(anns, start, k) <= anns.len(),
    decreases anns.len() - k,
{
    if k < anns.len() && !loc_before(start, anns[k].start) {
        lemma_insert_pos(anns, start, k + 1);
    }
}

/// Where a line is found depends on the numbers of the lines alone.
pub proof fn lemma_line_pos_same(a: Seq<AnnotatedLine>, b: Seq<AnnotatedLine>, line_index: usize, k: int)
    requires
        0 <= k <= a.len(),
        a.len() == b.len(),
        forall|i: int| 0 <= i < a.len() ==> (#[trigger] a[i]).line_index == b[i].line_index,
    ensures
        line_pos(a, line_index, k) == line_pos(b, line_index, k),
    decreases a.len() - k,
{
    if k < a.len() && a[k].line_index != line_index {
        lemma_line_pos_same(a, b, line_index, k + 1);
    }
}

/// Putting an annotation on a line changes the balance of its column by
/// what the annotation is, and leaves the lines where they are.
pub proof fn lemma_with_annotation(lines: Seq<AnnotatedLine>, line_index: usize, ann: LineAnn, depth: usize)
    ensures
        with_annotation(lines, line_index, ann).len() == lines.len(),
        forall|i: int|
            0 <= i < lines.len() ==> (#[trigger] with_annotation(lines, line_index, ann)[i]).line_index
                == lines[i].line_index,
        total_balance(with_annotation(lines, line_index, ann), depth) == total_balance(lines, depth)
            + if line_pos(lines, line_index, 0) < lines.len() {
            ann.annotation_type.bracket_sign(depth)
        } else {
            0
        },
{
    lemma_line_pos(lines, line_index, 0);
    let p = line_pos(lines, line_index, 0);
    if p < lines.len() {
        let at = insert_pos(lines[p].annotations, ann.start, 0);
        lemma_insert_pos(lines[p].annotations, ann.start, 0);
        let line = annotated_line(
            lines[p].line,
            lines[p].line_index,
            lines[p].annotations.insert(at, ann),
        );
        lemma_total_update(lines, p, line, depth);
        lemma_balance_insert(lines[p].annotations, at, ann, depth);
    }
}

/// A bracket that passes lines changes no balance.
pub proof fn lemma_passing(lines: Seq<AnnotatedLine>, line: usize, until: usize, ann: LineAnn, depth: usize)
    requires
        ann.annotation_type.bracket_sign(depth) == 0,
    ensures
        passing(lines, line, until, ann).len() == lines.len(),
        forall|i: int|
            0 <= i < lines.len() ==> (#[trigger] passing(lines, line, until, ann)[i]).line_index
                == lines[i].line_index,
        total_balance(passing(lines, line, until, ann), depth) == total_balance(lines, depth),
    decreases until - line,
{
    if line < until {
        lemma_with_annotation(lines, line, ann, depth);
        lemma_passing(with_annotation(lines, line, ann), (line + 1) as usize, until, ann, depth);
    }
}

impl SourceMapView {
    /// The bracket of one annotation leaves every balance as it is.
    pub proof fn lemma_bracket_of(self, lines: Seq<AnnotatedLine>, ann: MultiAnn, place: Placement, depth: usize)
        ensures
            self.bracket_of(lines, ann, place).len() == lines.len(),
            total_balance(self.bracket_of(lines, ann, place), depth) == total_balance(lines, depth),
    {
        let kind = if place.primary {
            AnnotationKind::Primary
        } else {
            ann.kind
        };
        if place.overlaps_exactly {
            lemma_with_annotation(lines, ann.end.line, ann.label_mark(kind), depth);
        } else if line_pos(lines, ann.start.line, 0) < lines.len() && line_pos(
            lines,
            ann.end.line,
            0,
        ) < lines.len() {
            let started = with_annotation(lines, ann.start.line, ann.start_mark(place.depth, kind));
            lemma_with_annotation(lines, ann.start.line, ann.start_mark(place.depth, kind), depth);
            let after = ann.start.line.saturating_add(4);
            let middle = if after < ann.end.line {
                after
            } else {
                ann.end.line
            };
            let until = last_meaningful(self, middle, ann.start.line);
            let mark = ann.line_mark(place.depth, kind);
            let passed = passing(started, ann.start.line.saturating_add(1), until, mark);
            lemma_passing(started, ann.start.line.saturating_add(1), until, mark, depth);
            let line_end = ann.end.line.saturating_sub(1);
            let end_says_nothing = match self.line_text(line_end) {
                Some(text) => !meaningful_line(text),
                None => false,
            };
            let before_end = if middle < line_end && !end_says_nothing {
                with_annotation(passed, line_end, mark)
            } else {
                passed
            };
            lemma_with_annotation(passed, line_end, mark, depth);
            lemma_line_pos_same(before_end, lines, ann.end.line, 0);
            lemma_with_annotation(before_end, ann.end.line, ann.end_mark(place.depth, kind), depth);
        }
    }

    /// The brackets of annotations leave every balance as it is.
    pub proof fn lemma_brackets_from(
        self,
        lines: Seq<AnnotatedLine>,
        multis: Seq<MultiAnn>,
        placed: Seq<Placement>,
        m: int,
        depth: usize,
    )
        ensures
            total_balance(self.brackets_from(lines, multis, placed, m), depth) == total_balance(
                lines,
                depth,
            ),
        decreases multis.len() - m,
    {
        if !(m >= multis.len() || m < 0) {
            self.lemma_bracket_of(lines, multis[m], placed[m], depth);
            self.lemma_brackets_from(
                self.bracket_of(lines, multis[m], placed[m]),
                multis,
                placed,
                m + 1,
                depth,
            );
        }
    }

    /// Annotations within one line change no balance.
    pub proof fn lemma_sorted_in(
        self,
        annotations: Seq<AnnotationView>,
        k: int,
        lines: Seq<AnnotatedLine>,
        multis: Seq<MultiAnn>,
        depth: usize,
    )
        ensures
            total_balance(self.sorted_in(annotations, k, lines, multis).0, depth) == total_balance(
                lines,
                depth,
            ),
        decreases annotations.len() - k,
    {
        if !(k >= annotations.len() || k < 0) {
            let a = annotations[k];
            let locs = self.locations_of(a.span);
            let lo = locs.0;
            let hi = if lo.display == locs.1.display && lo.line == locs.1.line {
                one_wider(locs.1)
            } else {
                locs.1
            };
            if lo.line == hi.line {
                let single = line_ann(
                    lo,
                    hi,
                    a.kind,
                    a.label,
                    LineAnnotationType::Singleline,
                    a.highlight_source,
                );
                lemma_with_annotation(lines, lo.line, single, depth);
                self.lemma_sorted_in(
                    annotations,
                    k + 1,
                    with_annotation(lines, lo.line, single),
                    multis,
                    depth,
                );
            } else {
                let item = MultiAnn {
                    start: lo,
                    end: hi,
                    kind: a.kind,
                    label: a.label,
                    highlight_source: a.highlight_source,
                };
                self.lemma_sorted_in(
                    annotations,
                    k + 1,
                    lines,
                    multis.insert(multi_pos(multis, item, 0), item),
                    depth,
                );
            }
        }
    }

    /// Brackets are balanced: on the lines of an excerpt, as many brackets
    /// start in each column of the gutter as end in it.
    pub proof fn lemma_brackets_balanced(self, annotations: Seq<AnnotationView>, fold: bool, depth: usize)
        ensures
            total_balance(self.annotated(annotations, fold).1, depth) == 0,
    {
        let blank = self.blank_lines();
        lemma_blank(blank, depth);
        let sorted = self.sorted_in(annotations, 0, blank, Seq::empty());
        self.lemma_sorted_in(annotations, 0, blank, Seq::empty(), depth);
        let placed = placements(sorted.1);
        let lines = self.brackets_from(sorted.0, sorted.1, placed, 0);
        self.lemma_brackets_from(sorted.0, sorted.1, placed, 0, depth);
        lemma_kept(lines, fold, 0, depth);
        assert(lines.skip(0) =~= lines);
    }
}

/// Lines without annotations have no bracket on them.
pub proof fn lemma_blank(lines: Seq<AnnotatedLine>, depth: usize)
    requires
        forall|i: int| 0 <= i < lines.len() ==> (#[trigger] lines[i]).annotations.len() == 0,
    ensures
        total_balance(lines, depth) == 0,
    decreases lines.len(),
{
    if lines.len() > 0 {
        lemma_blank(lines.drop_last(), depth);
    }
}

/// Leaving out lines without annotations changes no balance.
pub proof fn lemma_kept(lines: Seq<AnnotatedLine>, fold: bool, k: int, depth: usize)
    requires
        0 <= k <= lines.len(),
    ensures
        total_balance(kept(lines, fold, k), depth) == total_balance(lines.skip(k), depth),
    decreases lines.len() - k,
{
    if k >= lines.len() {
        assert(lines.skip(k) =~= Seq::<AnnotatedLine>::empty());
    } else {
        lemma_kept(lines, fold, k + 1, depth);
        assert(lines.skip(k) =~= seq![lines[k]] + lines.skip(k + 1));
        lemma_total_concat(seq![lines[k]], lines.skip(k + 1), depth);
        reveal_with_fuel(total_balance, 2);
        assert(seq![lines[k]].drop_last() =~= Seq::<AnnotatedLine>::empty());
        if !fold || lines[k].annotations.len() > 0 {
            lemma_total_concat(seq![lines[k]], kept(lines, fold, k + 1), depth);
        }
    }
}

} // verus!
