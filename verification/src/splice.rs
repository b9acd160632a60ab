//! Suggested edits: what kind of change a patch makes, and the text that
//! results when the patches of one suggestion are applied.

use crate::renderer::order::{order_of, stable_order, Key};
use crate::snippet::{Patch, Span};
use crate::source_map::{bytes_of, lemma_byte_len_subrange, Loc, SourceMap, SourceMapView};
use crate::text::{
    all_whitespace, byte_len, chars_of, count_char, ends_with,
    ends_with_spec, find_char, find_from, is_blank, same_text, saturate,
    slice_of, tab_cols, tab_columns, trim, trim_spec,
};
use vstd::prelude::*;

verus! {

/// A patch whose replacement is held as characters.
#[derive(Debug)]
pub struct PatchText {
    pub span: Span,
    pub replacement: Vec<char>,
}

/// Columns of a line of suggested text that a patch put there.
#[derive(Clone, Copy, Debug, PartialEq, Eq, Structural)]
pub struct SubstitutionHighlight {
    pub start: usize,
    pub end: usize,
}

/// The outcome of applying the patches of one suggestion.
#[derive(Debug)]
pub struct Splice {
    /// The lines that the patches touch, with the patches applied.
    pub complete: Vec<char>,
    /// The patches, ordered by where they start, each reduced to what it
    /// really changes.
    pub parts: Vec<PatchText>,
    /// For each line of `complete`, the columns that patches put there.
    pub highlights: Vec<Vec<SubstitutionHighlight>>,
}

/// What a patch holds.
pub struct PatchView {
    pub span: Span,
    pub replacement: Seq<char>,
}

/// What the outcome of applying patches holds.
pub struct SpliceView {
    pub complete: Seq<char>,
    pub parts: Seq<PatchView>,
    pub highlights: Seq<Seq<SubstitutionHighlight>>,
}

impl View for PatchText {
    type V = PatchView;

    open spec fn view(&self) -> PatchView {
        PatchView { span: self.span, replacement: self.replacement@ }
    }
}

/// What each of `parts` holds.
pub open spec fn patch_views(parts: Seq<PatchText>) -> Seq<PatchView> {
    Seq::new(parts.len(), |k: int| parts[k]@)
}

/// What each of `highlights` holds.
pub open spec fn highlight_views(highlights: Seq<Vec<SubstitutionHighlight>>) -> Seq<
    Seq<SubstitutionHighlight>,
> {
    Seq::new(highlights.len(), |k: int| highlights[k]@)
}

impl View for Splice {
    type V = SpliceView;

    open spec fn view(&self) -> SpliceView {
        SpliceView {
            complete: self.complete@,
            parts: patch_views(self.parts@),
            highlights: highlight_views(self.highlights@),
        }
    }
}

/// Number of characters at the start of `a` and `b` that are the same.
pub open spec fn common_prefix(a: Seq<char>, b: Seq<char>) -> nat
    decreases a.len(),
{
    if a.len() == 0 || b.len() == 0 || a[0] != b[0] {
        0
    } else {
        1 + common_prefix(a.drop_first(), b.drop_first())
    }
}

/// The common start is no longer than either text.
pub proof fn lemma_common_prefix_bound(a: Seq<char>, b: Seq<char>)
    ensures
        common_prefix(a, b) <= a.len(),
        common_prefix(a, b) <= b.len(),
    decreases a.len(),
{
    if !(a.len() == 0 || b.len() == 0 || a[0] != b[0]) {
        lemma_common_prefix_bound(a.drop_first(), b.drop_first());
    }
}

/// Where `suggestion` is `source` with a text put in at one place, the
/// bytes of `source` before that place, the text, and the bytes after it.
/// The place is the end of the longest common start of the two.
pub open spec fn as_substr_spec(source: Seq<char>, suggestion: Seq<char>) -> Option<
    (nat, Seq<char>, nat),
> {
    let p = common_prefix(source, suggestion) as int;
    let rest = source.skip(p);
    let tail = suggestion.skip(p);
    if ends_with_spec(tail, rest) {
        Some((byte_len(source.take(p)), tail.take(tail.len() - rest.len()), byte_len(rest)))
    } else {
        None
    }
}

/// See [`as_substr_spec`].
pub fn as_substr(source: &Vec<char>, suggestion: &Vec<char>) -> (found: Option<
    (usize, Vec<char>, usize),
>)
    requires
        byte_len(source@) <= usize::MAX,
    ensures
        found is Some == as_substr_spec(source@, suggestion@) is Some,
        found matches Some(f) ==> {
            let want = as_substr_spec(source@, suggestion@)->0;
            f.0 == want.0 && f.1@ == want.1 && f.2 == want.2
        },
{
    let mut p: usize = 0;
    proof {
        assert(source@.skip(0) =~= source@);
        assert(suggestion@.skip(0) =~= suggestion@);
    }
    while p < source.len() && p < suggestion.len() && source[p] == suggestion[p]
        invariant
            p <= source.len(),
            p <= suggestion.len(),
            common_prefix(source@, suggestion@) == p + common_prefix(
                source@.skip(p as int),
                suggestion@.skip(p as int),
            ),
        decreases source.len() - p,
    {
        proof {
            assert(source@.skip(p as int)[0] == source@[p as int]);
            assert(suggestion@.skip(p as int)[0] == suggestion@[p as int]);
            assert(source@.skip(p as int).drop_first() =~= source@.skip(p + 1));
            assert(suggestion@.skip(p as int).drop_first() =~= suggestion@.skip(p + 1));
        }
        p += 1;
    }
    proof {
        if p < source.len() && p < suggestion.len() {
            assert(source@.skip(p as int)[0] == source@[p as int]);
            assert(suggestion@.skip(p as int)[0] == suggestion@[p as int]);
        }
        lemma_byte_len_subrange(source@, 0, p as int);
        lemma_byte_len_subrange(source@, p as int, source@.len() as int);
        assert(source@.subrange(0, p as int) =~= source@.take(p as int));
        assert(source@.subrange(p as int, source@.len() as int) =~= source@.skip(p as int));
        assert(source@.take(source@.len() as int) =~= source@);
    }
    let head = slice_of(source, 0, p);
    let rest = slice_of(source, p, source.len());
    let tail = slice_of(suggestion, p, suggestion.len());
    proof {
        assert(rest@ =~= source@.skip(p as int));
        assert(tail@ =~= suggestion@.skip(p as int));
        assert(head@ =~= source@.take(p as int));
    }
    if ends_with(&tail, &rest) {
        let middle = slice_of(&tail, 0, tail.len() - rest.len());
        Some((bytes_of(&head), middle, bytes_of(&rest)))
    } else {
        None
    }
}

impl View for Patch {
    type V = PatchView;

    open spec fn view(&self) -> PatchView {
        PatchView { span: self.span, replacement: self.replacement@ }
    }
}

/// What each of `patches` holds.
pub open spec fn patch_inputs(patches: Seq<Patch>) -> Seq<PatchView> {
    Seq::new(patches.len(), |k: int| patches[k]@)
}

impl PatchView {
    /// The patch reduced to what it adds.
    pub open spec fn trimmed_patch(self, sm: SourceMapView) -> PatchView {
        PatchView { span: self.trimmed(sm).0, replacement: self.trimmed(sm).1 }
    }

    /// Whether the patch takes away text that is more than whitespace. A span
    /// that is not a piece of the source counts as such text unless it is empty.
    pub open spec fn replaces_content(self, sm: SourceMapView) -> bool {
        match sm.snippet_of(self.span) {
            Some(snippet) => !all_whitespace(snippet),
            None => self.span.start < self.span.end,
        }
    }

    /// The patch only adds text.
    pub open spec fn addition(self, sm: SourceMapView) -> bool {
        self.replacement.len() > 0 && !self.replaces_content(sm)
    }

    /// The patch only takes text away.
    pub open spec fn deletion(self, sm: SourceMapView) -> bool {
        all_whitespace(self.replacement) && self.replaces_content(sm)
    }

    /// The patch puts text in the place of other text.
    pub open spec fn replacement_of_content(self, sm: SourceMapView) -> bool {
        self.replacement.len() > 0 && self.replaces_content(sm)
    }

    /// The patch puts text in the place of other text, and the new text does
    /// not hold the old one: something is lost.
    pub open spec fn destructive(self, sm: SourceMapView) -> bool {
        self.replacement_of_content(sm) && !(match sm.snippet_of(self.span) {
            Some(snippet) => as_substr_spec(trim_spec(snippet), trim_spec(self.replacement)) is Some,
            None => false,
        })
    }

    /// Whether the patch changes the text it replaces at all.
    pub open spec fn different(self, sm: SourceMapView) -> bool {
        match sm.snippet_of(self.span) {
            Some(snippet) => snippet != self.replacement,
            None => true,
        }
    }

    /// The patch reduced to what it adds, where its replacement is the
    /// replaced text with something put in at one place: the span shrinks to
    /// that place. Every other patch stays as it is.
    pub open spec fn trimmed(self, sm: SourceMapView) -> (Span, Seq<char>) {
        if self.replacement.len() == 0 {
            (self.span, self.replacement)
        } else {
            match sm.snippet_of(self.span) {
                Some(snippet) => match as_substr_spec(snippet, self.replacement) {
                    Some((prefix, middle, suffix)) => (
                        Span {
                            start: (self.span.start + prefix) as usize,
                            end: if self.span.end >= suffix {
                                (self.span.end - suffix) as usize
                            } else {
                                0
                            },
                        },
                        middle,
                    ),
                    None => (self.span, self.replacement),
                },
                None => (self.span, self.replacement),
            }
        }
    }
}

impl PatchText {
    /// The patch with its replacement as characters.
    pub fn of(patch: &Patch) -> (p: PatchText)
        ensures
            p.span == patch.span,
            p.replacement@ == patch.replacement@,
    {
        PatchText { span: patch.span, replacement: chars_of(patch.replacement.as_str()) }
    }

    /// Whether the patch takes away text that is more than whitespace.
    pub fn replaces_meaningful_content(&self, sm: &SourceMap) -> (b: bool)
        requires
            sm.wf(),
        ensures
            b == self@.replaces_content(sm@),
    {
        match sm.span_to_snippet(self.span) {
            Some(snippet) => !is_blank(&snippet),
            None => self.span.start < self.span.end,
        }
    }

    /// Whether the patch only adds text.
    pub fn is_addition(&self, sm: &SourceMap) -> (b: bool)
        requires
            sm.wf(),
        ensures
            b == self@.addition(sm@),
    {
        self.replacement.len() > 0 && !self.replaces_meaningful_content(sm)
    }

    /// Whether the patch only takes text away.
    pub fn is_deletion(&self, sm: &SourceMap) -> (b: bool)
        requires
            sm.wf(),
        ensures
            b == self@.deletion(sm@),
    {
        is_blank(&self.replacement) && self.replaces_meaningful_content(sm)
    }

    /// Whether the patch puts text in the place of other text.
    pub fn is_replacement(&self, sm: &SourceMap) -> (b: bool)
        requires
            sm.wf(),
        ensures
            b == self@.replacement_of_content(sm@),
    {
        self.replacement.len() > 0 && self.replaces_meaningful_content(sm)
    }

    /// Whether the patch replaces text by text that does not hold it.
    pub fn is_destructive_replacement(&self, sm: &SourceMap) -> (b: bool)
        requires
            sm.wf(),
        ensures
            b == self@.destructive(sm@),
    {
        if !self.is_replacement(sm) {
            return false;
        }
        let held = match sm.span_to_snippet(self.span) {
            Some(snippet) => {
                let old = trim(&snippet);
                let new = trim(&self.replacement);
                proof {
                    lemma_trim_bytes(snippet@);
                    sm@.lemma_snippet_bytes(self.span);
                }
                as_substr(&old, &new).is_some()
            },
            None => false,
        };
        !held
    }

    /// Whether the patch changes the text it replaces at all.
    pub fn is_different(&self, sm: &SourceMap) -> (b: bool)
        requires
            sm.wf(),
        ensures
            b == self@.different(sm@),
    {
        match sm.span_to_snippet(self.span) {
            Some(snippet) => !same_text(&snippet, &self.replacement),
            None => true,
        }
    }

    /// The patch reduced to what it adds; see [`PatchView::trimmed`].
    pub fn trim_trivial_replacements(&self, sm: &SourceMap) -> (p: PatchText)
        requires
            sm.wf(),
        ensures
            p@ == self@.trimmed_patch(sm@),
    {
        let same = PatchText {
            span: self.span,
            replacement: slice_of(&self.replacement, 0, self.replacement.len()),
        };
        proof {
            assert(self.replacement@.subrange(0, self.replacement@.len() as int)
                =~= self.replacement@);
        }
        if self.replacement.len() == 0 {
            return same;
        }
        let snippet = match sm.span_to_snippet(self.span) {
            Some(snippet) => snippet,
            None => {
                return same;
            },
        };
        proof {
            sm@.lemma_snippet_bytes(self.span);
        }
        match as_substr(&snippet, &self.replacement) {
            Some((prefix, middle, suffix)) => {
                proof {
                    // The common start is a piece of the snippet, which is a
                    // piece of the bytes up to the span's end.
                    let p = common_prefix(snippet@, self.replacement@) as int;
                    lemma_common_prefix_bound(snippet@, self.replacement@);
                    lemma_byte_len_subrange(snippet@, 0, p);
                    assert(snippet@.subrange(0, p) =~= snippet@.take(p));
                }
                PatchText {
                    span: Span {
                        start: self.span.start + prefix,
                        end: self.span.end.saturating_sub(suffix),
                    },
                    replacement: middle,
                }
            },
            None => same,
        }
    }
}

/// Trimming never adds bytes.
pub proof fn lemma_trim_bytes(s: Seq<char>)
    ensures
        byte_len(trim_spec(s)) <= byte_len(s),
{
    crate::text::lemma_leading_whitespace(s);
    let t = crate::text::trim_start_spec(s);
    crate::text::lemma_trailing_whitespace(t);
    let n = crate::text::leading_whitespace(s) as int;
    let m = t.len() - crate::text::trailing_whitespace(t);
    assert(t =~= s.subrange(n, s.len() as int));
    assert(trim_spec(s) =~= s.subrange(n, n + m));
    lemma_byte_len_subrange(s, n, n + m);
    lemma_byte_len_subrange(s, 0, n + m);
}

impl SourceMapView {
    /// A piece of the source has no more bytes than the span that names it.
    pub proof fn lemma_snippet_bytes(self, span: Span)
        requires
            self.wf(),
        ensures
            self.snippet_of(span) matches Some(snippet) ==> byte_len(snippet) == span.end
                - span.start,
    {
        if self.snippet_of(span) is Some {
            let s = self.source;
            let i = crate::source_map::boundary_index(s, span.start as int);
            let j = crate::source_map::boundary_index(s, span.end as int);
            if j < i {
                crate::text::lemma_byte_len_take_monotone(s, j, i);
            }
            if i <= j {
                lemma_byte_len_subrange(s, i, j);
            }
        }
    }
}

/// Appends `src[from..to]` to `buf`.
pub fn extend_from(buf: &mut Vec<char>, src: &Vec<char>, from: usize, to: usize)
    requires
        from <= to <= src.len(),
    ensures
        final(buf)@ == old(buf)@ + src@.subrange(from as int, to as int),
{
    let mut i: usize = from;
    assert(buf@ =~= old(buf)@ + src@.subrange(from as int, from as int));
    while i < to
        invariant
            from <= i <= to <= src.len(),
            buf@ == old(buf)@ + src@.subrange(from as int, i as int),
        decreases to - i,
    {
        buf.push(src[i]);
        assert(buf@ =~= old(buf)@ + src@.subrange(from as int, i + 1));
        i += 1;
    }
}

/// `base` moved by `delta`, kept within the range of `usize`.
pub fn shifted(base: usize, delta: i128) -> (n: usize)
    requires
        -(usize::MAX as int) <= delta <= usize::MAX as int,
    ensures
        n == crate::text::saturate(base + delta),
{
    let moved: i128 = base as i128 + delta;
    if moved < 0 {
        0
    } else if moved > usize::MAX as i128 {
        usize::MAX
    } else {
        moved as usize
    }
}

/// `v` kept within the range that a difference of two `usize` can have.
pub open spec fn bounded_spec(v: int) -> int {
    if v < -(usize::MAX as int) {
        -(usize::MAX as int)
    } else if v > usize::MAX as int {
        usize::MAX as int
    } else {
        v
    }
}

/// `v` kept within the range that a difference of two `usize` can have.
pub fn bounded(v: i128) -> (n: i128)
    ensures
        n == bounded_spec(v as int),
        -(usize::MAX as int) <= n <= usize::MAX as int,
        -(usize::MAX as int) <= v <= usize::MAX as int ==> n == v,
{
    if v < -(usize::MAX as i128) {
        -(usize::MAX as i128)
    } else if v > usize::MAX as i128 {
        usize::MAX as i128
    } else {
        v
    }
}

/// Number of line breaks in `s[from..to]`.
fn newlines_in(s: &Vec<char>, from: usize, to: usize) -> (n: usize)
    requires
        from <= to <= s.len(),
    ensures
        n == count_char(s@.subrange(from as int, to as int), '\n'),
{
    let mut n: usize = 0;
    let mut i: usize = from;
    proof {
        assert(s@.subrange(from as int, from as int) =~= Seq::<char>::empty());
    }
    while i < to
        invariant
            from <= i <= to <= s.len(),
            n <= i - from,
            n == count_char(s@.subrange(from as int, i as int), '\n'),
        decreases to - i,
    {
        proof {
            assert(s@.subrange(from as int, i + 1).drop_last() =~= s@.subrange(
                from as int,
                i as int,
            ));
        }
        if s[i] == '\n' {
            n += 1;
        }
        i += 1;
    }
    n
}

/// What follows character `lo` on `line`: up to character `hi`, or,
/// without `hi`, the rest of the line and a line break; and the number of
/// line breaks within the text taken from `line`.
pub open spec fn trailing(line: Option<Seq<char>>, lo: usize, hi: Option<usize>) -> (Seq<char>, nat) {
    match line {
        None => (Seq::empty(), 0),
        Some(l) => {
            let upto: int = match hi {
                Some(h) => if h < l.len() {
                    h as int
                } else {
                    l.len() as int
                },
                None => l.len() as int,
            };
            let text = if lo < l.len() && lo < upto {
                l.subrange(lo as int, upto)
            } else if lo < l.len() && !(hi is Some && hi->0 < l.len()) {
                l.subrange(lo as int, l.len() as int)
            } else {
                Seq::empty()
            };
            (
                if hi is None {
                    text.push('\n')
                } else {
                    text
                },
                count_char(text, '\n'),
            )
        },
    }
}

fn push_trailing(buf: &mut Vec<char>, line: Option<&Vec<char>>, lo: usize, hi: Option<usize>) -> (count:
    usize)
    ensures
        final(buf)@ == old(buf)@ + trailing(
            match line {
                Some(l) => Some(l@),
                None => None,
            },
            lo,
            hi,
        ).0,
        count == trailing(
            match line {
                Some(l) => Some(l@),
                None => None,
            },
            lo,
            hi,
        ).1,
{
    let mut count: usize = 0;
    let ghost start = buf@;
    proof {
        assert(buf@ =~= start + Seq::<char>::empty());
    }
    if let Some(line) = line {
        if lo < line.len() {
            let upto = match hi {
                Some(h) => if h < line.len() {
                    Some(h)
                } else {
                    None
                },
                None => None,
            };
            match upto {
                Some(h) => {
                    if h > lo {
                        count = newlines_in(line, lo, h);
                        extend_from(buf, line, lo, h);
                    }
                },
                None => {
                    count = newlines_in(line, lo, line.len());
                    extend_from(buf, line, lo, line.len());
                },
            }
        }
        if hi.is_none() {
            let ghost before = buf@;
            buf.push('\n');
            proof {
                let text = trailing(Some(line@), lo, hi).0.drop_last();
                assert(before =~= start + text);
                assert(buf@ =~= start + text.push('\n'));
            }
        }
    }
    count
}

/// Whether every list of `highlights` is empty.
pub open spec fn no_highlight(highlights: Seq<Seq<SubstitutionHighlight>>) -> bool {
    forall|i: int| 0 <= i < highlights.len() ==> (#[trigger] highlights[i]).len() == 0
}

/// What is known while patches are applied one after the other.
pub struct Spliced {
    /// The text so far.
    pub buf: Seq<char>,
    /// The columns put in, for each line of the text that is complete.
    pub highlights: Seq<Seq<SubstitutionHighlight>>,
    /// The columns put in on the line that is being written.
    pub line_highlight: Seq<SubstitutionHighlight>,
    /// How far the columns of that line have moved through the patches so far.
    pub acc: int,
    /// Where the last patch ends.
    pub prev_hi: Loc,
    /// The line that the last patch ends on.
    pub prev_line: Option<usize>,
}

/// The highlight of the columns `start..end`.
pub open spec fn highlight(start: usize, end: usize) -> SubstitutionHighlight {
    SubstitutionHighlight { start, end }
}

/// `highlights` after the line being written was completed `n` times.
pub open spec fn completed(
    highlights: Seq<Seq<SubstitutionHighlight>>,
    line_highlight: Seq<SubstitutionHighlight>,
    n: nat,
) -> (Seq<Seq<SubstitutionHighlight>>, Seq<SubstitutionHighlight>)
    decreases n,
{
    if n == 0 {
        (highlights, line_highlight)
    } else {
        completed(highlights.push(line_highlight), Seq::empty(), (n - 1) as nat)
    }
}

/// `s` without the line breaks at its end.
pub open spec fn without_final_breaks(s: Seq<char>) -> Seq<char>
    decreases s.len(),
{
    if s.len() > 0 && s.last() == '\n' {
        without_final_breaks(s.drop_last())
    } else {
        s
    }
}

/// The least start among `patches[k..]` and `lo`.
pub open spec fn least_start(patches: Seq<PatchView>, k: int, lo: usize) -> usize
    decreases patches.len() - k,
{
    if k >= patches.len() || k < 0 {
        lo
    } else if patches[k].span.start < lo {
        least_start(patches, k + 1, patches[k].span.start)
    } else {
        least_start(patches, k + 1, lo)
    }
}

/// The greatest end among `patches[k..]` and `hi`.
pub open spec fn greatest_end(patches: Seq<PatchView>, k: int, hi: usize) -> usize
    decreases patches.len() - k,
{
    if k >= patches.len() || k < 0 {
        hi
    } else if patches[k].span.end > hi {
        greatest_end(patches, k + 1, patches[k].span.end)
    } else {
        greatest_end(patches, k + 1, hi)
    }
}

/// The keys that patches are applied in the order of: where they start.
pub open spec fn patch_keys(patches: Seq<PatchView>) -> Seq<Key> {
    Seq::new(patches.len(), |k: int| (patches[k].span.start, 0usize))
}

/// The patches in the order `order`, each reduced to what it adds.
pub open spec fn trimmed_in_order(patches: Seq<PatchView>, order: Seq<usize>, sm: SourceMapView) -> Seq<
    PatchView,
> {
    Seq::new(order.len(), |k: int| patches[order[k] as int].trimmed_patch(sm))
}

impl SourceMapView {
    /// Position of the first line with the number `idx`, if there is one.
    pub open spec fn line_position(self, idx: usize) -> Option<usize> {
        if 0 <= self.first_line_at(idx, 0) < self.lines.len() {
            Some(self.first_line_at(idx, 0) as usize)
        } else {
            None
        }
    }

    /// The text at position `at`, if any.
    pub open spec fn text_at(self, at: Option<usize>) -> Option<Seq<char>> {
        match at {
            Some(p) => if p < self.lines.len() {
                Some(self.lines[p as int].line)
            } else {
                None
            },
            None => None,
        }
    }

    /// The text and the highlights after the lines with the numbers
    /// `idx..stop` were taken over as they are.
    pub open spec fn taken_over(
        self,
        buf: Seq<char>,
        highlights: Seq<Seq<SubstitutionHighlight>>,
        line_highlight: Seq<SubstitutionHighlight>,
        idx: usize,
        stop: usize,
    ) -> (Seq<char>, Seq<Seq<SubstitutionHighlight>>, Seq<SubstitutionHighlight>)
        decreases stop - idx,
    {
        if idx >= stop {
            (buf, highlights, line_highlight)
        } else {
            match self.line_text(idx) {
                Some(line) => self.taken_over(
                    (buf + line).push('\n'),
                    highlights.push(line_highlight),
                    Seq::empty(),
                    (idx + 1) as usize,
                    stop,
                ),
                None => self.taken_over(buf, highlights, line_highlight, (idx + 1) as usize, stop),
            }
        }
    }

    /// The highlights after the lines of a replacement after its first
    /// were put in: each is new from its start.
    pub open spec fn new_lines(
        self,
        replacement: Seq<char>,
        from: int,
        highlights: Seq<Seq<SubstitutionHighlight>>,
        line_highlight: Seq<SubstitutionHighlight>,
    ) -> (Seq<Seq<SubstitutionHighlight>>, Seq<SubstitutionHighlight>)
        decreases replacement.len() - from,
    {
        if from >= replacement.len() || from < 0 {
            (highlights, line_highlight)
        } else {
            let next = find_char(replacement, '\n', from + 1);
            let end = saturate(tab_cols(replacement.subrange(from + 1, next)) as int);
            if next <= from || next > replacement.len() {
                (highlights, line_highlight)
            } else {
                self.new_lines(
                    replacement,
                    next,
                    highlights.push(line_highlight),
                    seq![highlight(0, end)],
                )
            }
        }
    }

    /// What is known after the patch `part` was applied.
    ///
    /// First comes the source between the last patch and this one: the rest
    /// of the line up to the patch where both are on one line, and else the
    /// rest of the line, the lines between, and the start of this patch's
    /// line. Then comes the replacement, whose columns are noted as put in
    /// unless it changes nothing.
    pub open spec fn applied(self, st: Spliced, part: PatchView) -> Spliced {
        let locs = self.locations_of(part.span);
        let cur_lo = locs.0;
        let cur_hi = locs.1;
        let prev_text = self.text_at(st.prev_line);
        let before = if st.prev_hi.line == cur_lo.line {
            let t = trailing(prev_text, st.prev_hi.char, Some(cur_lo.char));
            let c = completed(st.highlights, st.line_highlight, t.1);
            (
                st.buf + t.0,
                c.0,
                c.1,
                if t.1 > 0 {
                    0int
                } else {
                    st.acc
                },
            )
        } else {
            let t = trailing(prev_text, st.prev_hi.char, None);
            let c = completed(st.highlights.push(st.line_highlight), Seq::empty(), t.1);
            let between = self.taken_over(
                st.buf + t.0,
                c.0,
                c.1,
                st.prev_hi.line.saturating_add(1),
                cur_lo.line,
            );
            (
                match self.line_text(cur_lo.line) {
                    Some(line) => between.0 + line.subrange(
                        0,
                        if cur_lo.char < line.len() {
                            cur_lo.char as int
                        } else {
                            line.len() as int
                        },
                    ),
                    None => between.0,
                },
                between.1,
                between.2,
                0int,
            )
        };
        let first_break = find_char(part.replacement, '\n', 0);
        let len = saturate(tab_cols(part.replacement.subrange(0, first_break)) as int);
        let start = saturate(cur_lo.char + before.3);
        let noted = if part.different(self) {
            before.2.push(highlight(start, start.saturating_add(len)))
        } else {
            before.2
        };
        let later = self.new_lines(part.replacement, first_break, before.1, noted);
        Spliced {
            buf: before.0 + part.replacement,
            highlights: later.0,
            line_highlight: later.1,
            acc: if first_break < part.replacement.len() {
                0
            } else {
                bounded_spec(before.3 + len - (cur_hi.char - cur_lo.char))
            },
            prev_hi: cur_hi,
            prev_line: self.line_position(cur_hi.line),
        }
    }

    /// What is known after the patches `parts[k..]` were applied.
    pub open spec fn applied_from(self, st: Spliced, parts: Seq<PatchView>, k: int) -> Spliced
        decreases parts.len() - k,
    {
        if k >= parts.len() || k < 0 {
            st
        } else {
            self.applied_from(self.applied(st, parts[k]), parts, k + 1)
        }
    }

    /// The outcome of applying `patches`: nothing where there is no patch
    /// or no patch changes anything; and else the text of the lines that
    /// the patches touch with every patch applied and without line breaks
    /// at its end, the patches in the order of their starts, each reduced
    /// to what it adds, and for each line of the text the columns put in.
    pub open spec fn spliced(self, patches: Seq<PatchView>) -> Seq<SpliceView> {
        if patches.len() == 0 {
            Seq::empty()
        } else {
            let bounds = Span {
                start: least_start(patches, 0, patches[0].span.start),
                end: greatest_end(patches, 0, patches[0].span.end),
            };
            let order = stable_order(patch_keys(patches), patches.len(), false);
            let parts = trimmed_in_order(patches, order, self);
            let first = self.locations_of(bounds).0;
            let st = self.applied_from(
                Spliced {
                    buf: Seq::empty(),
                    highlights: Seq::empty(),
                    line_highlight: Seq::empty(),
                    acc: 0,
                    prev_hi: Loc { line: first.line, char: 0, display: first.display, byte: first.byte },
                    prev_line: Some(self.lines_of_span(bounds)[0]),
                },
                parts,
                0,
            );
            let highlights = st.highlights.push(st.line_highlight);
            let text = if st.buf.len() > 0 && st.buf.last() == '\n' {
                st.buf
            } else {
                st.buf + trailing(self.text_at(st.prev_line), st.prev_hi.char, None).0
            };
            if no_highlight(highlights) {
                Seq::empty()
            } else {
                seq![
                    SpliceView { complete: without_final_breaks(text), parts, highlights },
                ]
            }
        }
    }
}

/// What is known while patches are applied, as it is computed.
pub struct Splicing {
    pub buf: Vec<char>,
    pub highlights: Vec<Vec<SubstitutionHighlight>>,
    pub line_highlight: Vec<SubstitutionHighlight>,
    pub acc: i128,
    pub prev_hi: Loc,
    pub prev_line: Option<usize>,
}

impl View for Splicing {
    type V = Spliced;

    open spec fn view(&self) -> Spliced {
        Spliced {
            buf: self.buf@,
            highlights: highlight_views(self.highlights@),
            line_highlight: self.line_highlight@,
            acc: self.acc as int,
            prev_hi: self.prev_hi,
            prev_line: self.prev_line,
        }
    }
}

/// Completes the line being written `n` times.
fn complete_lines(
    highlights: &mut Vec<Vec<SubstitutionHighlight>>,
    line_highlight: Vec<SubstitutionHighlight>,
    n: usize,
) -> (rest: Vec<SubstitutionHighlight>)
    ensures
        (highlight_views(final(highlights)@), rest@) == completed(
            highlight_views(old(highlights)@),
            line_highlight@,
            n as nat,
        ),
{
    let mut current = line_highlight;
    let mut count = n;
    while count > 0
        invariant
            completed(highlight_views(highlights@), current@, count as nat) == completed(
                highlight_views(old(highlights)@),
                line_highlight@,
                n as nat,
            ),
        decreases count,
    {
        let ghost before = highlight_views(highlights@);
        let ghost pushed = current@;
        highlights.push(current);
        current = Vec::new();
        proof {
            assert(highlight_views(highlights@) =~= before.push(pushed));
            assert(current@ =~= Seq::<SubstitutionHighlight>::empty());
        }
        count -= 1;
    }
    current
}

impl SourceMap {
    /// Applies one patch.
    fn apply_patch(&self, st: Splicing, part: &PatchText) -> (out: Splicing)
        requires
            self.wf(),
            -(usize::MAX as int) <= st.acc <= usize::MAX as int,
            st.prev_line matches Some(p) ==> p < self.lines@.len(),
        ensures
            out@ == self@.applied(st@, part@),
            -(usize::MAX as int) <= out.acc <= usize::MAX as int,
            out.prev_line matches Some(p) ==> p < self.lines@.len(),
    {
        let ghost view = self@;
        let ghost from = st@;
        let mut buf = st.buf;
        let mut highlights = st.highlights;
        let mut acc = st.acc;
        let (cur_lo, cur_hi) = self.span_to_locations(part.span);
        let prev_text = match st.prev_line {
            Some(p) => Some(&self.lines[p].line),
            None => None,
        };
        proof {
            assert(match prev_text {
                Some(l) => Some(l@),
                None => None,
            } == view.text_at(st.prev_line));
        }
        let mut line_highlight;
        if st.prev_hi.line == cur_lo.line {
            let count = push_trailing(&mut buf, prev_text, st.prev_hi.char, Some(cur_lo.char));
            line_highlight = complete_lines(&mut highlights, st.line_highlight, count);
            if count > 0 {
                acc = 0;
            }
        } else {
            acc = 0;
            let ghost h0 = highlight_views(highlights@);
            let ghost lh0 = st.line_highlight@;
            highlights.push(st.line_highlight);
            proof {
                assert(highlight_views(highlights@) =~= h0.push(lh0));
            }
            let count = push_trailing(&mut buf, prev_text, st.prev_hi.char, None);
            line_highlight = complete_lines(&mut highlights, Vec::new(), count);
            // The lines between the last patch and this one.
            let mut idx = st.prev_hi.line.saturating_add(1);
            let ghost b0 = buf@;
            let ghost h1 = highlight_views(highlights@);
            let ghost lh1 = line_highlight@;
            while idx < cur_lo.line
                invariant
                    self.wf(),
                    view == self@,
                    view.taken_over(
                        buf@,
                        highlight_views(highlights@),
                        line_highlight@,
                        idx,
                        cur_lo.line,
                    ) == view.taken_over(
                        b0,
                        h1,
                        lh1,
                        st.prev_hi.line.saturating_add(1),
                        cur_lo.line,
                    ),
                decreases cur_lo.line - idx,
            {
                if let Some(line) = self.get_line(idx) {
                    let ghost bb = buf@;
                    let ghost hh = highlight_views(highlights@);
                    let ghost ll = line_highlight@;
                    extend_from(&mut buf, line, 0, line.len());
                    buf.push('\n');
                    highlights.push(line_highlight);
                    line_highlight = Vec::new();
                    proof {
                        assert(line@.subrange(0, line@.len() as int) =~= line@);
                        assert(buf@ =~= (bb + line@).push('\n'));
                        assert(highlight_views(highlights@) =~= hh.push(ll));
                        assert(line_highlight@ =~= Seq::<SubstitutionHighlight>::empty());
                    }
                }
                idx += 1;
            }
            if let Some(cur_line) = self.get_line(cur_lo.line) {
                let end = if cur_lo.char < cur_line.len() {
                    cur_lo.char
                } else {
                    cur_line.len()
                };
                extend_from(&mut buf, cur_line, 0, end);
            }
        }
        // The first line of the replacement is put in on the current line.
        let first_break = find_from(&part.replacement, '\n', 0);
        let len = tab_columns(&part.replacement, 0, first_break);
        let start = shifted(cur_lo.char, acc);
        if part.is_different(self) {
            line_highlight.push(SubstitutionHighlight { start, end: start.saturating_add(len) });
        }
        extend_from(&mut buf, &part.replacement, 0, part.replacement.len());
        proof {
            assert(part.replacement@.subrange(0, part.replacement@.len() as int)
                =~= part.replacement@);
        }
        // What follows moves by what the replacement is longer than the
        // replaced text. The patch may end on another line than it starts
        // on, so its end may lie left of its start.
        let moved = bounded(acc + len as i128 - (cur_hi.char as i128 - cur_lo.char as i128));
        // Every further line of the replacement is new from its start.
        let mut from_char = first_break;
        let ghost h2 = highlight_views(highlights@);
        let ghost lh2 = line_highlight@;
        while from_char < part.replacement.len()
            invariant
                from_char <= part.replacement.len(),
                view.new_lines(
                    part.replacement@,
                    from_char as int,
                    highlight_views(highlights@),
                    line_highlight@,
                ) == view.new_lines(part.replacement@, first_break as int, h2, lh2),
            decreases part.replacement.len() - from_char,
        {
            let next = find_from(&part.replacement, '\n', from_char + 1);
            let end = tab_columns(&part.replacement, from_char + 1, next);
            let ghost hh = highlight_views(highlights@);
            let ghost ll = line_highlight@;
            highlights.push(line_highlight);
            line_highlight = Vec::new();
            line_highlight.push(SubstitutionHighlight { start: 0, end });
            proof {
                assert(highlight_views(highlights@) =~= hh.push(ll));
                assert(line_highlight@ =~= seq![highlight(0, end)]);
            }
            from_char = next;
        }
        Splicing {
            buf,
            highlights,
            line_highlight,
            acc: if first_break < part.replacement.len() {
                0
            } else {
                moved
            },
            prev_hi: cur_hi,
            prev_line: self.find_line(cur_hi.line),
        }
    }

    /// Applies the patches of one suggestion.
    ///
    /// The result is empty where there is no patch or no patch changes
    /// anything. Otherwise it holds one entry: the text of the lines that
    /// the patches touch with every patch applied and without line breaks at
    /// its end, the patches in the order of their starts, and for each line
    /// of that text the columns that were put in.
    pub fn splice_lines(&self, patches: &Vec<Patch>) -> (out: Vec<Splice>)
        requires
            self.wf(),
        ensures
            crate::renderer::suggestion::splice_views(out@) == self@.spliced(patch_inputs(patches@)),
            out@.len() <= 1,
            forall|i: int| 0 <= i < out@.len() ==> (#[trigger] out@[i]).parts@.len() >= 1,
    {
        let n = patches.len();
        if n == 0 {
            let out: Vec<Splice> = Vec::new();
            proof {
                assert(crate::renderer::suggestion::splice_views(out@) =~= Seq::<
                    SpliceView,
                >::empty());
            }
            return out;
        }
        let ghost inputs = patch_inputs(patches@);
        let ghost view = self@;
        let mut lo: usize = patches[0].span.start;
        let mut hi: usize = patches[0].span.end;
        let mut keys: Vec<Key> = Vec::new();
        let mut i: usize = 0;
        while i < n
            invariant
                i <= n,
                n == patches@.len(),
                inputs == patch_inputs(patches@),
                least_start(inputs, i as int, lo) == least_start(inputs, 0, inputs[0].span.start),
                greatest_end(inputs, i as int, hi) == greatest_end(inputs, 0, inputs[0].span.end),
                keys@ == patch_keys(inputs).take(i as int),
            decreases n - i,
        {
            let span = patches[i].span;
            if span.start < lo {
                lo = span.start;
            }
            if span.end > hi {
                hi = span.end;
            }
            keys.push((span.start, 0));
            proof {
                assert(keys@ =~= patch_keys(inputs).take(i + 1));
            }
            i += 1;
        }
        proof {
            assert(keys@ =~= patch_keys(inputs));
        }
        // The patches in the order of their starts; those that start at
        // the same byte keep their order. A replacement of `a` by `ab` is
        // shown as the addition of `b`, which is easier to take in.
        let order = order_of(&keys, false);
        let mut parts: Vec<PatchText> = Vec::new();
        let mut k: usize = 0;
        while k < n
            invariant
                self.wf(),
                view == self@,
                k <= n,
                n == patches@.len(),
                n == order@.len(),
                inputs == patch_inputs(patches@),
                forall|i: int| 0 <= i < order@.len() ==> (#[trigger] order@[i]) < n,
                parts@.len() == k,
                patch_views(parts@) == trimmed_in_order(inputs, order@, view).take(k as int),
            decreases n - k,
        {
            let part = PatchText::of(&patches[order[k]]).trim_trivial_replacements(self);
            let ghost before = patch_views(parts@);
            parts.push(part);
            proof {
                assert(inputs[order@[k as int] as int] == patches@[order@[k as int] as int]@);
                assert(parts@[k as int]@ == trimmed_in_order(inputs, order@, view)[k as int]);
                assert forall|m: int| 0 <= m < k + 1 implies patch_views(parts@)[m]
                    == trimmed_in_order(inputs, order@, view).take(k + 1)[m] by {
                    if m < k {
                        assert(patch_views(parts@)[m] == before[m]);
                    }
                }
                assert(patch_views(parts@) =~= trimmed_in_order(inputs, order@, view).take(k + 1));
            }
            k += 1;
        }
        proof {
            assert(patch_views(parts@) =~= trimmed_in_order(inputs, order@, view));
        }
        let bounds = Span { start: lo, end: hi };
        let lines = self.span_to_lines(bounds);
        let (first, _) = self.span_to_locations(bounds);
        let mut st = Splicing {
            buf: Vec::new(),
            highlights: Vec::new(),
            line_highlight: Vec::new(),
            acc: 0,
            prev_hi: Loc { line: first.line, char: 0, display: first.display, byte: first.byte },
            prev_line: Some(lines[0]),
        };
        let ghost st0 = st@;
        proof {
            assert(st.buf@ =~= Seq::<char>::empty());
            assert(highlight_views(st.highlights@) =~= Seq::<Seq<SubstitutionHighlight>>::empty());
            assert(st.line_highlight@ =~= Seq::<SubstitutionHighlight>::empty());
        }
        let mut k: usize = 0;
        while k < n
            invariant
                self.wf(),
                view == self@,
                k <= n,
                n == parts@.len(),
                -(usize::MAX as int) <= st.acc <= usize::MAX as int,
                st.prev_line matches Some(p) ==> p < self.lines@.len(),
                view.applied_from(st@, patch_views(parts@), k as int) == view.applied_from(
                    st0,
                    patch_views(parts@),
                    0,
                ),
            decreases n - k,
        {
            proof {
                assert(patch_views(parts@)[k as int] == parts@[k as int]@);
            }
            st = self.apply_patch(st, &parts[k]);
            k += 1;
        }
        let mut highlights = st.highlights;
        let mut buf = st.buf;
        let ghost h0 = highlight_views(highlights@);
        let ghost lh0 = st.line_highlight@;
        highlights.push(st.line_highlight);
        proof {
            assert(highlight_views(highlights@) =~= h0.push(lh0));
        }
        // If the last replacement ends a line, the next line is not shown.
        if !(buf.len() > 0 && buf[buf.len() - 1] == '\n') {
            let prev_text = match st.prev_line {
                Some(p) => Some(&self.lines[p].line),
                None => None,
            };
            proof {
                assert(match prev_text {
                    Some(l) => Some(l@),
                    None => None,
                } == view.text_at(st.prev_line));
            }
            push_trailing(&mut buf, prev_text, st.prev_hi.char, None);
        }
        let ghost text = buf@;
        while buf.len() > 0 && buf[buf.len() - 1] == '\n'
            invariant
                without_final_breaks(buf@) == without_final_breaks(text),
            decreases buf.len(),
        {
            buf.pop();
        }
        let mut empty = true;
        let mut h: usize = 0;
        while h < highlights.len()
            invariant
                h <= highlights.len(),
                empty == no_highlight(highlight_views(highlights@).take(h as int)),
            decreases highlights.len() - h,
        {
            if highlights[h].len() > 0 {
                empty = false;
            }
            proof {
                let a = highlight_views(highlights@).take(h as int);
                let b = highlight_views(highlights@).take(h + 1);
                assert(b[h as int] == highlights@[h as int]@);
                assert(forall|k: int| 0 <= k < h ==> a[k] == b[k]);
                if no_highlight(b) {
                    assert forall|k: int| 0 <= k < a.len() implies (#[trigger] a[k]).len() == 0 by {
                        assert(b[k].len() == 0);
                    }
                }
            }
            h += 1;
        }
        proof {
            assert(highlight_views(highlights@).take(highlights@.len() as int) =~= highlight_views(
                highlights@,
            ));
        }
        let mut out: Vec<Splice> = Vec::new();
        if !empty {
            out.push(Splice { complete: buf, parts, highlights });
            proof {
                assert(crate::renderer::suggestion::splice_views(out@) =~= seq![out@[0]@]);
            }
        } else {
            proof {
                assert(crate::renderer::suggestion::splice_views(out@) =~= Seq::<
                    SpliceView,
                >::empty());
            }
        }
        out
    }
}

} // verus!
