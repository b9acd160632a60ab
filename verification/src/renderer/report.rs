//! Rendering a report: its groups one after the other, each with its
//! heading and its parts.

use crate::annotate::{annotation_views};
use crate::level::LevelInner;
use crate::margin::larger;
use crate::renderer::excerpt::origin_place;
use crate::renderer::glyphs::decimal;
use crate::renderer::line_annotation::{AnnotatedLine};
use crate::renderer::title::{string_of, text_of, TitleStyle};
use crate::renderer::Renderer;
use crate::snippet::{Annotation, Element, Group, Patch, Snippet, Span};
use crate::source_map::{map_of, SourceMap};
use crate::splice::patch_inputs;
use crate::style::ElementStyle;
use crate::styled_buffer::{
    append_spec, flatten_rows, putc_spec, saturate_len, Rows, StyledBuffer,
};
use crate::text::{
    all_whitespace, byte_len, chars_of, is_blank, push_chars, same_text, slice_of, };
use vstd::prelude::*;
use vstd::slice::slice_subrange;
use vstd::string::StringSliceAdditionalSpecFns;

verus! {

/// Number of bytes of `bytes` that are `needle`.
pub open spec fn count_byte(bytes: Seq<u8>, needle: u8) -> nat
    decreases bytes.len(),
{
    if bytes.len() == 0 {
        0
    } else {
        count_byte(bytes.drop_last(), needle) + if bytes.last() == needle {
            1nat
        } else {
            0nat
        }
    }
}

/// A byte occurs no more often than there are bytes.
pub proof fn lemma_count_byte(bytes: Seq<u8>, needle: u8)
    ensures
        count_byte(bytes, needle) <= bytes.len(),
        bytes.len() > 0 && bytes.last() != needle ==> count_byte(bytes, needle) < bytes.len(),
    decreases bytes.len(),
{
    if bytes.len() > 0 {
        lemma_count_byte(bytes.drop_last(), needle);
    }
}

/// Counts what `memchr::memchr_iter` finds of the line feed byte in
/// `haystack`: every position of that byte, once.
#[verifier::external_body]
fn count_line_feeds(haystack: &[u8]) -> (n: usize)
    ensures
        n == count_byte(haystack@, 10u8),
{
    memchr::memchr_iter(b'\n', haystack).count()
}

/// Number of lines of the text with the bytes `body`, less one: a line ends
/// with a line feed or with the text.
pub open spec fn newline_count_spec(body: Seq<u8>) -> usize {
    let lines = count_byte(body, 10u8) + if body.len() > 0 && body.last() != 10u8 {
        1nat
    } else {
        0nat
    };
    if lines > 0 {
        (lines - 1) as usize
    } else {
        0
    }
}

fn newline_count_in(body: &[u8]) -> (n: usize)
    ensures
        n == newline_count_spec(body@),
{
    let feeds = count_line_feeds(body);
    proof {
        lemma_count_byte(body@, 10u8);
    }
    let lines = if body.len() > 0 && body[body.len() - 1] != 10u8 {
        feeds + 1
    } else {
        feeds
    };
    lines.saturating_sub(1)
}

/// Number of line breaks between the lines of `body`.
pub fn newline_count(body: &str) -> (n: usize)
    ensures
        n == newline_count_spec(body.spec_bytes()),
{
    newline_count_in(body.as_bytes())
}

/// The greatest end among `spans[k..]` and `acc`.
pub open spec fn greatest(spans: Seq<Span>, k: int, acc: Option<usize>) -> Option<usize>
    decreases spans.len() - k,
{
    if k >= spans.len() || k < 0 {
        acc
    } else {
        greatest(
            spans,
            k + 1,
            match acc {
                Some(a) => if spans[k].end > a {
                    Some(spans[k].end)
                } else {
                    acc
                },
                None => Some(spans[k].end),
            },
        )
    }
}

/// The spans of `markers`.
pub open spec fn annotation_spans(markers: Seq<Annotation>) -> Seq<Span> {
    Seq::new(markers.len(), |k: int| markers[k].span)
}

/// The spans of `markers`.
pub open spec fn patch_spans(markers: Seq<Patch>) -> Seq<Span> {
    Seq::new(markers.len(), |k: int| markers[k].span)
}

/// The number of the last line of an excerpt that can be shown: with
/// `fold`, of the line where the last marker ends.
pub open spec fn last_line_number(source: Seq<u8>, line_start: usize, fold: bool, spans: Seq<Span>) -> usize {
    let end: int = if fold {
        match greatest(spans, 0, None) {
            Some(e) => if e < source.len() {
                e as int
            } else {
                source.len() as int
            },
            None => source.len() as int,
        }
    } else {
        source.len() as int
    };
    line_start.saturating_add(newline_count_spec(source.subrange(0, end)))
}

/// The last line number that an element can show, 0 for one without source.
pub open spec fn element_last_line(e: Element) -> usize {
    match e {
        Element::Cause(c) => last_line_number(
            vstd::utf8::encode_utf8(c.source@),
            c.line_start,
            c.fold,
            annotation_spans(c.markers@),
        ),
        Element::Suggestion(s) => last_line_number(
            vstd::utf8::encode_utf8(s.source@),
            s.line_start,
            s.fold,
            patch_spans(s.markers@),
        ),
        _ => 0,
    }
}

/// The greatest last line number among `elements[k..]` and `acc`.
pub open spec fn elements_last_line(elements: Seq<Element>, k: int, acc: usize) -> usize
    decreases elements.len() - k,
{
    if k >= elements.len() || k < 0 {
        acc
    } else {
        elements_last_line(elements, k + 1, larger(acc, element_last_line(elements[k])))
    }
}

/// The greatest line number that the groups `groups[g..]` can show, and
/// `acc`; a group without elements counts as 1.
pub open spec fn groups_last_line(groups: Seq<Group>, g: int, acc: usize) -> usize
    decreases groups.len() - g,
{
    if g >= groups.len() || g < 0 {
        acc
    } else {
        groups_last_line(
            groups,
            g + 1,
            larger(
                acc,
                if groups[g].elements@.len() == 0 {
                    1
                } else {
                    elements_last_line(groups[g].elements@, 0, 0)
                },
            ),
        )
    }
}

/// The greatest line number that a report can show; 1 for a report
/// without groups.
pub open spec fn max_line_number_spec(groups: Seq<Group>) -> usize {
    if groups.len() == 0 {
        1
    } else {
        groups_last_line(groups, 0, 0)
    }
}

fn last_line_of(source: &str, line_start: usize, fold: bool, greatest_end: Option<usize>) -> (n:
    usize)
    ensures
        n == line_start.saturating_add(
            newline_count_spec(
                source.spec_bytes().subrange(
                    0,
                    if fold {
                        match greatest_end {
                            Some(e) => if e < source.spec_bytes().len() {
                                e as int
                            } else {
                                source.spec_bytes().len() as int
                            },
                            None => source.spec_bytes().len() as int,
                        }
                    } else {
                        source.spec_bytes().len() as int
                    },
                ),
            ),
        ),
{
    let bytes = source.as_bytes();
    let end = if fold {
        match greatest_end {
            Some(e) => if e < bytes.len() {
                e
            } else {
                bytes.len()
            },
            None => bytes.len(),
        }
    } else {
        bytes.len()
    };
    line_start.saturating_add(newline_count_in(slice_subrange(bytes, 0, end)))
}

fn greatest_annotation_end(markers: &Vec<Annotation>) -> (end: Option<usize>)
    ensures
        end == greatest(annotation_spans(markers@), 0, None),
{
    let mut acc: Option<usize> = None;
    let mut k: usize = 0;
    while k < markers.len()
        invariant
            k <= markers.len(),
            greatest(annotation_spans(markers@), k as int, acc) == greatest(
                annotation_spans(markers@),
                0,
                None,
            ),
        decreases markers.len() - k,
    {
        let e = markers[k].span.end;
        acc = match acc {
            Some(a) => if e > a {
                Some(e)
            } else {
                acc
            },
            None => Some(e),
        };
        k += 1;
    }
    acc
}

fn greatest_patch_end(markers: &Vec<Patch>) -> (end: Option<usize>)
    ensures
        end == greatest(patch_spans(markers@), 0, None),
{
    let mut acc: Option<usize> = None;
    let mut k: usize = 0;
    while k < markers.len()
        invariant
            k <= markers.len(),
            greatest(patch_spans(markers@), k as int, acc) == greatest(
                patch_spans(markers@),
                0,
                None,
            ),
        decreases markers.len() - k,
    {
        let e = markers[k].span.end;
        acc = match acc {
            Some(a) => if e > a {
                Some(e)
            } else {
                acc
            },
            None => Some(e),
        };
        k += 1;
    }
    acc
}

/// The greatest line number that the report can show.
pub fn max_line_number(groups: &[Group]) -> (n: usize)
    ensures
        n == max_line_number_spec(groups@),
{
    if groups.len() == 0 {
        return 1;
    }
    let mut acc: usize = 0;
    let mut g: usize = 0;
    while g < groups.len()
        invariant
            g <= groups.len(),
            groups_last_line(groups@, g as int, acc) == groups_last_line(groups@, 0, 0),
        decreases groups.len() - g,
    {
        let elements = &groups[g].elements;
        let last = if elements.len() == 0 {
            1
        } else {
            let mut inner: usize = 0;
            let mut k: usize = 0;
            while k < elements.len()
                invariant
                    k <= elements.len(),
                    elements_last_line(elements@, k as int, inner) == elements_last_line(
                        elements@,
                        0,
                        0,
                    ),
                decreases elements.len() - k,
            {
                let n = match &elements[k] {
                    Element::Cause(c) => last_line_of(
                        c.source.as_str(),
                        c.line_start,
                        c.fold,
                        greatest_annotation_end(&c.markers),
                    ),
                    Element::Suggestion(s) => last_line_of(
                        s.source.as_str(),
                        s.line_start,
                        s.fold,
                        greatest_patch_end(&s.markers),
                    ),
                    _ => 0,
                };
                inner = larger(inner, n);
                k += 1;
            }
            inner
        };
        acc = larger(acc, last);
        g += 1;
    }
    acc
}

/// Whether one of `markers[k..]` is primary.
pub open spec fn any_primary_marker(markers: Seq<Annotation>, k: int) -> bool
    decreases markers.len() - k,
{
    if k >= markers.len() || k < 0 {
        false
    } else {
        markers[k].kind.primary() || any_primary_marker(markers, k + 1)
    }
}

/// Whether the element says where a report is: with `primary`, where
/// the report itself is, and not just something that belongs to it.
pub open spec fn names_place(e: Element, primary: bool) -> bool {
    match e {
        Element::Cause(c) => !primary || any_primary_marker(c.markers@, 0),
        Element::Origin(o) => !primary || o.primary,
        _ => false,
    }
}

/// The path of the file that an element is about.
pub open spec fn path_of(e: Element) -> Option<Seq<char>> {
    match e {
        Element::Cause(c) => string_of(c.path),
        Element::Origin(o) => Some(o.path@),
        _ => None,
    }
}

/// Position of the first of `elements[k..]` that says where a report is,
/// or the number of elements.
pub open spec fn first_place(elements: Seq<Element>, primary: bool, k: int) -> int
    decreases elements.len() - k,
{
    if k >= elements.len() || k < 0 {
        elements.len() as int
    } else if names_place(elements[k], primary) {
        k
    } else {
        first_place(elements, primary, k + 1)
    }
}

/// The path of the file that a group is about: that of its first
/// excerpt with a primary annotation or its first primary place, and
/// else that of its first excerpt or place.
pub open spec fn primary_path_of(elements: Seq<Element>) -> Option<Seq<char>> {
    let p = first_place(elements, true, 0);
    if 0 <= p < elements.len() {
        path_of(elements[p])
    } else {
        let q = first_place(elements, false, 0);
        if 0 <= q < elements.len() {
            path_of(elements[q])
        } else {
            None
        }
    }
}

/// The lines of an excerpt with the annotations on each, and the columns
/// of the gutter that its brackets need.
pub open spec fn cause_lines(c: Snippet<Annotation>) -> (usize, Seq<AnnotatedLine>) {
    map_of(c.source@, c.line_start).annotated(annotation_views(c.markers@), c.fold)
}

/// What stands between the texts of two groups: the line break that ends
/// the first, and a blank line.
pub open spec fn group_break() -> Seq<char> {
    seq!['\n', '\n']
}

/// The columns of the gutter that the brackets of `elements[k..]` need, and `acc`.
pub open spec fn group_depth(elements: Seq<Element>, k: int, acc: usize) -> usize
    decreases elements.len() - k,
{
    if k >= elements.len() || k < 0 {
        acc
    } else {
        group_depth(
            elements,
            k + 1,
            match elements[k] {
                Element::Cause(c) => larger(acc, cause_lines(c).0),
                _ => acc,
            },
        )
    }
}

/// Whether every annotation of the excerpt ends within the source, or
/// just after it.
pub open spec fn cause_ok(c: Snippet<Annotation>) -> bool {
    forall|i: int|
        0 <= i < c.markers@.len() ==> (#[trigger] c.markers@[i]).span.end <= byte_len(c.source@) + 1
}

/// Whether every excerpt among `elements` can be shown.
pub open spec fn elements_ok(elements: Seq<Element>) -> bool {
    forall|k: int|
        0 <= k < elements.len() ==> ((#[trigger] elements[k]) matches Element::Cause(c) ==> cause_ok(
            c,
        ))
}

/// The first label that says something among those of the primary
/// annotations `markers[k..]`, or nothing where there is none.
pub open spec fn first_label(markers: Seq<Annotation>, k: int) -> Seq<char>
    decreases markers.len() - k,
{
    if k >= markers.len() || k < 0 {
        Seq::empty()
    } else {
        match markers[k].label {
            Some(label) => if markers[k].kind.primary() && !all_whitespace(label@) {
                label@
            } else {
                first_label(markers, k + 1)
            },
            None => first_label(markers, k + 1),
        }
    }
}

/// Position of the first excerpt among `elements[k..]`, or the number of elements.
pub open spec fn first_cause(elements: Seq<Element>, k: int) -> int
    decreases elements.len() - k,
{
    if k >= elements.len() || k < 0 {
        elements.len() as int
    } else if elements[k] is Cause {
        k
    } else {
        first_cause(elements, k + 1)
    }
}

/// What a renderer keeps in mind while it goes through the elements of a group.
pub struct Progress {
    pub rows: Rows,
    /// Whether the primary excerpt or place was shown.
    pub seen_primary: bool,
    /// Whether the last element was a suggestion.
    pub last_was_suggestion: bool,
}

/// What is the same for every element of a group.
#[derive(Debug)]
pub struct GroupFrame {
    /// Columns that line numbers take.
    pub max_line_num_len: usize,
    /// Columns of the gutter that brackets take.
    pub depth: usize,
    /// Whether the group is the first of the report.
    pub first: bool,
    /// Whether the report has more than one group.
    pub many: bool,
    /// The path of the file that the group is about.
    pub primary_path: Option<Vec<char>>,
    /// That path, or else the path that the report is about.
    pub shown_path: Option<Vec<char>>,
}

/// What a frame of a group holds.
pub struct GroupFrameView {
    pub max_line_num_len: usize,
    pub depth: usize,
    pub first: bool,
    pub many: bool,
    pub primary_path: Option<Seq<char>>,
    pub shown_path: Option<Seq<char>>,
}

impl View for GroupFrame {
    type V = GroupFrameView;

    open spec fn view(&self) -> GroupFrameView {
        GroupFrameView {
            max_line_num_len: self.max_line_num_len,
            depth: self.depth,
            first: self.first,
            many: self.many,
            primary_path: text_of(self.primary_path),
            shown_path: text_of(self.shown_path),
        }
    }
}

impl Renderer {
    /// The canvas with the separator between gutter and source below what it holds.
    pub open spec fn gutter_row(&self, rows: Rows, sep_col: usize) -> Rows {
        putc_spec(
            rows,
            saturate_len(rows.len()),
            sep_col,
            crate::renderer::glyphs::col_separator_of(self.theme),
            ElementStyle::LineNumber,
        )
    }

    /// The canvas with the end of the gutter below what it holds.
    pub open spec fn gutter_end(&self, rows: Rows, sep_col: usize) -> Rows {
        self.col_separator_end_spec(rows, saturate_len(rows.len()), sep_col)
    }

    /// What is kept in mind after the element `e`, which `next` follows, was drawn.
    ///
    /// A remark is drawn as a heading below the gutter; an excerpt with its
    /// place and its annotated lines; a suggestion with its patches
    /// applied; a place as a path; and padding as an empty row of the
    /// gutter. In the first group, the gutter goes on after an excerpt or
    /// a place where a remark follows, and ends where nothing follows that
    /// belongs to it.
    pub open spec fn element_spec(&self, at: Progress, e: Element, next: Option<Element>, frame: GroupFrameView) -> Progress {
        let sep_col = frame.max_line_num_len.saturating_add(1);
        match e {
            Element::Message(m) => Progress {
                rows: self.title_spec(
                    at.rows,
                    m.heading_view(),
                    frame.max_line_num_len,
                    TitleStyle::Secondary,
                    next matches Some(n) && (n is Message || n is Padding),
                    saturate_len(at.rows.len()),
                ),
                seen_primary: at.seen_primary,
                last_was_suggestion: false,
            },
            Element::Cause(c) => {
                let is_primary = frame.primary_path == string_of(c.path) && !at.seen_primary;
                let r1 = self.snippet_annotations_spec(
                    at.rows,
                    frame.max_line_num_len,
                    string_of(c.path),
                    is_primary,
                    map_of(c.source@, c.line_start),
                    cause_lines(c).1,
                    frame.depth,
                    next is Some || (frame.first && frame.many),
                );
                let r2 = if frame.first {
                    match next {
                        Some(n) => if n is Message {
                            self.gutter_row(r1, sep_col)
                        } else if n matches Element::Origin(o) && o.primary {
                            self.gutter_end(r1, sep_col)
                        } else {
                            r1
                        },
                        None => if frame.many {
                            self.gutter_end(r1, sep_col)
                        } else {
                            r1
                        },
                    }
                } else {
                    r1
                };
                Progress {
                    rows: r2,
                    seen_primary: at.seen_primary || is_primary,
                    last_was_suggestion: false,
                }
            },
            Element::Suggestion(s) => {
                let sm = map_of(s.source@, s.line_start);
                Progress {
                    rows: self.suggestions_spec(
                        at.rows,
                        saturate_len(at.rows.len()).saturating_add(
                            if at.last_was_suggestion {
                                0usize
                            } else {
                                1usize
                            },
                        ),
                        sm.spliced(patch_inputs(s.markers@)),
                        0,
                        sm,
                        if string_of(s.path) != frame.shown_path {
                            string_of(s.path)
                        } else {
                            None
                        },
                        frame.max_line_num_len,
                        at.last_was_suggestion,
                    ),
                    seen_primary: at.seen_primary,
                    last_was_suggestion: true,
                }
            },
            Element::Origin(o) => {
                let r1 = self.origin_spec(
                    at.rows,
                    frame.max_line_num_len,
                    o.path@,
                    o.line,
                    o.char_column,
                    o.primary,
                    saturate_len(at.rows.len()),
                );
                let r2 = if frame.first {
                    if next is None && frame.many {
                        self.gutter_end(r1, sep_col)
                    } else if next matches Some(n) && n is Message {
                        self.gutter_row(r1, sep_col)
                    } else {
                        r1
                    }
                } else {
                    r1
                };
                Progress {
                    rows: r2,
                    seen_primary: at.seen_primary || frame.primary_path == Some(o.path@),
                    last_was_suggestion: false,
                }
            },
            Element::Padding(_) => Progress {
                rows: if next is None {
                    self.gutter_end(at.rows, sep_col)
                } else {
                    self.gutter_row(at.rows, sep_col)
                },
                seen_primary: at.seen_primary,
                last_was_suggestion: at.last_was_suggestion,
            },
        }
    }

    /// The canvas after the elements `elements[k..]` were drawn.
    pub open spec fn elements_spec(&self, at: Progress, elements: Seq<Element>, k: int, frame: GroupFrameView) -> Rows
        decreases elements.len() - k,
    {
        if k >= elements.len() || k < 0 {
            at.rows
        } else {
            self.elements_spec(
                self.element_spec(
                    at,
                    elements[k],
                    if k + 1 < elements.len() {
                        Some(elements[k + 1])
                    } else {
                        None
                    },
                    frame,
                ),
                elements,
                k + 1,
                frame,
            )
        }
    }

    /// The canvas of a group: its heading, and below it its elements.
    pub open spec fn group_spec(
        &self,
        group: Group,
        first: bool,
        many: bool,
        max_line_num_len: usize,
        report_path: Option<Seq<char>>,
    ) -> Rows {
        let elements = group.elements@;
        let sep_col = max_line_num_len.saturating_add(1);
        let primary_path = primary_path_of(elements);
        let frame = GroupFrameView {
            max_line_num_len,
            depth: group_depth(elements, 0, 0),
            first,
            many,
            primary_path,
            shown_path: if primary_path is Some {
                primary_path
            } else {
                report_path
            },
        };
        let headed = match group.title {
            Some(title) => {
                let remark_follows = elements.len() > 0 && elements[0] is Message;
                let r1 = self.title_spec(
                    Seq::empty(),
                    title.heading_view(),
                    max_line_num_len,
                    if first {
                        TitleStyle::MainHeader
                    } else {
                        TitleStyle::Header
                    },
                    remark_follows,
                    0,
                );
                let r2 = if remark_follows {
                    self.gutter_row(r1, sep_col)
                } else {
                    r1
                };
                if elements.len() == 0 && first && many {
                    self.col_separator_end_spec(r2, saturate_len(r1.len()), sep_col)
                } else {
                    r2
                }
            },
            None => Seq::empty(),
        };
        self.elements_spec(
            Progress { rows: headed, seen_primary: false, last_was_suggestion: false },
            elements,
            0,
            frame,
        )
    }

    /// The text of a group.
    #[verifier::opaque]
    pub open spec fn group_text(
        &self,
        group: Group,
        first: bool,
        many: bool,
        max_line_num_len: usize,
        report_path: Option<Seq<char>>,
    ) -> Seq<char> {
        flatten_rows(
            self.group_spec(group, first, many, max_line_num_len, report_path),
            group.primary_level.level,
            self.stylesheet,
        )
    }

    /// The text of the groups `groups[g..]`, with a blank line between two;
    /// `report_path` is the path that the groups before are about.
    pub open spec fn groups_text(
        &self,
        groups: Seq<Group>,
        g: int,
        max_line_num_len: usize,
        report_path: Option<Seq<char>>,
    ) -> Seq<char>
        decreases groups.len() - g,
    {
        if g >= groups.len() || g < 0 {
            Seq::empty()
        } else {
            let path = primary_path_of(groups[g].elements@);
            let text = self.group_text(
                groups[g],
                g == 0,
                groups.len() > 1,
                max_line_num_len,
                report_path,
            );
            let rest = self.groups_text(
                groups,
                g + 1,
                max_line_num_len,
                if report_path is None {
                    path
                } else {
                    report_path
                },
            );
            if g != groups.len() - 1 {
                text + group_break() + rest
            } else {
                text + rest
            }
        }
    }

    /// The columns that line numbers take: those of the greatest line
    /// number that can be shown, or of `LL` where line numbers are anonymized.
    pub open spec fn line_number_width(&self, groups: Seq<Group>) -> usize {
        if self.anonymized_line_numbers {
            2
        } else {
            decimal(max_line_number_spec(groups) as nat).len() as usize
        }
    }

    /// The text of a report on one line: the place of the first excerpt of
    /// the first group, the level and the title of that group, and the
    /// first label of a primary annotation of that excerpt.
    pub open spec fn short_text(&self, groups: Seq<Group>) -> Seq<char> {
        let group = groups[0];
        let title = group.title->0;
        let elements = group.elements@;
        let at = first_cause(elements, 0);
        let placed = if 0 <= at < elements.len() {
            let c = elements[at]->Cause_0;
            match c.path {
                Some(p) => {
                    let place = origin_place(cause_lines(c).1, true);
                    append_spec(
                        self.origin_spec(Seq::empty(), 0, p@, place.0, place.1, true, 0),
                        0,
                        seq![':', ' '],
                        ElementStyle::LineAndColumn,
                    )
                },
                None => Seq::empty(),
            }
        } else {
            Seq::empty()
        };
        let titled = self.title_spec(
            placed,
            title.heading_view(),
            0,
            TitleStyle::MainHeader,
            false,
            0,
        );
        let label = if 0 <= at < elements.len() {
            first_label(elements[at]->Cause_0.markers@, 0)
        } else {
            Seq::empty()
        };
        flatten_rows(
            if label.len() > 0 {
                append_spec(titled, 0, seq![':', ' '] + label, ElementStyle::NoStyle)
            } else {
                titled
            },
            title.level.level,
            self.stylesheet,
        )
    }

    /// Whether the report can be rendered: every annotation ends within
    /// its source or just after it, and for a report on one line there is
    /// a first group with a title.
    pub open spec fn renderable(&self, groups: Seq<Group>) -> bool {
        &&& forall|g: int| 0 <= g < groups.len() ==> elements_ok((#[trigger] groups[g]).elements@)
        &&& self.short_message ==> groups.len() > 0 && groups[0].title is Some
    }

    /// The text of a report.
    pub open spec fn render_spec(&self, groups: Seq<Group>) -> Seq<char> {
        if self.short_message {
            self.short_text(groups)
        } else {
            self.groups_text(groups, 0, self.line_number_width(groups), None)
        }
    }
}

/// The characters of the text that `text` holds, if any.
fn opt_chars(text: &Option<String>) -> (out: Option<Vec<char>>)
    ensures
        text_of(out) == string_of(*text),
{
    match text {
        Some(t) => Some(chars_of(t.as_str())),
        None => None,
    }
}

/// The text that `text` holds, once more.
fn opt_copy(text: &Option<Vec<char>>) -> (out: Option<Vec<char>>)
    ensures
        text_of(out) == text_of(*text),
{
    match text {
        Some(t) => {
            proof {
                assert(t@.subrange(0, t@.len() as int) =~= t@);
            }
            Some(slice_of(t, 0, t.len()))
        },
        None => None,
    }
}

/// Whether the two hold the same text, or both none.
fn same_opt(a: &Option<Vec<char>>, b: &Option<Vec<char>>) -> (r: bool)
    ensures
        r == (text_of(*a) == text_of(*b)),
{
    match (a, b) {
        (Some(x), Some(y)) => same_text(x, y),
        (None, None) => true,
        _ => false,
    }
}

fn has_primary_marker(markers: &Vec<Annotation>) -> (b: bool)
    ensures
        b == any_primary_marker(markers@, 0),
{
    let mut k: usize = 0;
    while k < markers.len()
        invariant
            k <= markers.len(),
            any_primary_marker(markers@, k as int) == any_primary_marker(markers@, 0),
        decreases markers.len() - k,
    {
        if markers[k].kind.is_primary() {
            return true;
        }
        k += 1;
    }
    false
}

fn does_name_place(e: &Element, primary: bool) -> (b: bool)
    ensures
        b == names_place(*e, primary),
{
    match e {
        Element::Cause(c) => !primary || has_primary_marker(&c.markers),
        Element::Origin(o) => !primary || o.primary,
        _ => false,
    }
}

fn first_place_of(elements: &Vec<Element>, primary: bool) -> (at: usize)
    ensures
        at == first_place(elements@, primary, 0),
        at <= elements@.len(),
{
    let mut k: usize = 0;
    while k < elements.len()
        invariant
            k <= elements.len(),
            first_place(elements@, primary, k as int) == first_place(elements@, primary, 0),
        decreases elements.len() - k,
    {
        if does_name_place(&elements[k], primary) {
            return k;
        }
        k += 1;
    }
    k
}

fn element_path(e: &Element) -> (path: Option<Vec<char>>)
    ensures
        text_of(path) == path_of(*e),
{
    match e {
        Element::Cause(c) => opt_chars(&c.path),
        Element::Origin(o) => Some(chars_of(o.path.as_str())),
        _ => None,
    }
}

/// The path of the file that a group is about.
pub fn primary_path(elements: &Vec<Element>) -> (path: Option<Vec<char>>)
    ensures
        text_of(path) == primary_path_of(elements@),
{
    let p = first_place_of(elements, true);
    if p < elements.len() {
        element_path(&elements[p])
    } else {
        let q = first_place_of(elements, false);
        if q < elements.len() {
            element_path(&elements[q])
        } else {
            None
        }
    }
}

fn is_cause(e: &Element) -> (b: bool)
    ensures
        b == (e is Cause),
{
    match e {
        Element::Cause(_) => true,
        _ => false,
    }
}

fn is_message(e: Option<&Element>) -> (b: bool)
    ensures
        b == (e matches Some(n) && n is Message),
{
    match e {
        Some(Element::Message(_)) => true,
        _ => false,
    }
}

fn is_padding(e: Option<&Element>) -> (b: bool)
    ensures
        b == (e matches Some(n) && n is Padding),
{
    match e {
        Some(Element::Padding(_)) => true,
        _ => false,
    }
}

fn is_primary_origin(e: Option<&Element>) -> (b: bool)
    ensures
        b == (e matches Some(n) && (n matches Element::Origin(o) && o.primary)),
{
    match e {
        Some(Element::Origin(o)) => o.primary,
        _ => false,
    }
}

/// What is kept in mind between two elements, as it is computed.
pub struct Cursor {
    pub seen_primary: bool,
    pub last_was_suggestion: bool,
}

impl Renderer {
    /// Draws the separator between gutter and source below what the canvas holds.
    fn draw_gutter_row(&self, buffer: &mut StyledBuffer, sep_col: usize)
        ensures
            final(buffer)@ == self.gutter_row(old(buffer)@, sep_col),
    {
        let row = buffer.num_lines();
        self.draw_col_separator_no_space(buffer, row, sep_col);
    }

    /// Draws the end of the gutter below what the canvas holds.
    fn draw_gutter_end(&self, buffer: &mut StyledBuffer, sep_col: usize)
        ensures
            final(buffer)@ == self.gutter_end(old(buffer)@, sep_col),
    {
        let row = buffer.num_lines();
        self.draw_col_separator_end(buffer, row, sep_col);
    }

    /// Draws a suggestion: the lines that its patches touch, with the
    /// patches applied, below what the canvas holds. After another
    /// suggestion, it starts on the last row of that one.
    pub fn emit_suggestion_default(
        &self,
        buffer: &mut StyledBuffer,
        suggestion: &Snippet<Patch>,
        max_line_num_len: usize,
        sm: &SourceMap,
        primary_path: &Option<Vec<char>>,
        is_cont: bool,
    )
        requires
            sm.wf(),
        ensures
            final(buffer)@ == self.suggestions_spec(
                old(buffer)@,
                saturate_len(old(buffer)@.len()).saturating_add(
                    if is_cont {
                        0usize
                    } else {
                        1usize
                    },
                ),
                sm@.spliced(patch_inputs(suggestion.markers@)),
                0,
                sm@,
                if string_of(suggestion.path) != text_of(*primary_path) {
                    string_of(suggestion.path)
                } else {
                    None
                },
                max_line_num_len,
                is_cont,
            ),
    {
        let suggestions = sm.splice_lines(&suggestion.markers);
        let path = opt_chars(&suggestion.path);
        if same_opt(&path, primary_path) {
            self.draw_suggestions(buffer, &suggestions, sm, None, max_line_num_len, is_cont);
        } else {
            self.draw_suggestions(buffer, &suggestions, sm, path.as_ref(), max_line_num_len, is_cont);
        }
    }

    /// Draws one element of a group below what the canvas holds.
    fn render_element(
        &self,
        buffer: &mut StyledBuffer,
        cursor: Cursor,
        e: &Element,
        next: Option<&Element>,
        frame: &GroupFrame,
    ) -> (after: Cursor)
        requires
            e matches Element::Cause(c) ==> cause_ok(*c),
        ensures
            (Progress {
                rows: final(buffer)@,
                seen_primary: after.seen_primary,
                last_was_suggestion: after.last_was_suggestion,
            }) == self.element_spec(
                Progress {
                    rows: old(buffer)@,
                    seen_primary: cursor.seen_primary,
                    last_was_suggestion: cursor.last_was_suggestion,
                },
                *e,
                match next {
                    Some(n) => Some(*n),
                    None => None,
                },
                frame@,
            ),
    {
        let max_line_num_len = frame.max_line_num_len;
        let sep_col = max_line_num_len.saturating_add(1);
        match e {
            Element::Message(message) => {
                let offset = buffer.num_lines();
                let heading = message.heading();
                self.render_title(
                    buffer,
                    &heading,
                    max_line_num_len,
                    TitleStyle::Secondary,
                    is_message(next) || is_padding(next),
                    offset,
                );
                Cursor { seen_primary: cursor.seen_primary, last_was_suggestion: false }
            },
            Element::Cause(cause) => {
                let path = opt_chars(&cause.path);
                let is_primary = same_opt(&frame.primary_path, &path) && !cursor.seen_primary;
                let sm = SourceMap::new(cause.source.as_str(), cause.line_start);
                let (_, annotated_lines) = sm.annotated_lines(&cause.markers, cause.fold);
                self.render_snippet_annotations(
                    buffer,
                    max_line_num_len,
                    path.as_ref(),
                    is_primary,
                    &sm,
                    &annotated_lines,
                    frame.depth,
                    next.is_some() || (frame.first && frame.many),
                );
                if frame.first {
                    if is_message(next) {
                        self.draw_gutter_row(buffer, sep_col);
                    } else if is_primary_origin(next) {
                        self.draw_gutter_end(buffer, sep_col);
                    } else if next.is_none() && frame.many {
                        self.draw_gutter_end(buffer, sep_col);
                    }
                }
                Cursor {
                    seen_primary: cursor.seen_primary || is_primary,
                    last_was_suggestion: false,
                }
            },
            Element::Suggestion(suggestion) => {
                let sm = SourceMap::new(suggestion.source.as_str(), suggestion.line_start);
                self.emit_suggestion_default(
                    buffer,
                    suggestion,
                    max_line_num_len,
                    &sm,
                    &frame.shown_path,
                    cursor.last_was_suggestion,
                );
                Cursor { seen_primary: cursor.seen_primary, last_was_suggestion: true }
            },
            Element::Origin(origin) => {
                let offset = buffer.num_lines();
                let path = chars_of(origin.path.as_str());
                self.render_origin(
                    buffer,
                    max_line_num_len,
                    &path,
                    origin.line,
                    origin.char_column,
                    origin.primary,
                    offset,
                );
                if frame.first {
                    if next.is_none() && frame.many {
                        self.draw_gutter_end(buffer, sep_col);
                    } else if is_message(next) {
                        self.draw_gutter_row(buffer, sep_col);
                    }
                }
                let named = Some(path);
                Cursor {
                    seen_primary: cursor.seen_primary || same_opt(&frame.primary_path, &named),
                    last_was_suggestion: false,
                }
            },
            Element::Padding(_) => {
                if next.is_none() {
                    self.draw_gutter_end(buffer, sep_col);
                } else {
                    self.draw_gutter_row(buffer, sep_col);
                }
                Cursor {
                    seen_primary: cursor.seen_primary,
                    last_was_suggestion: cursor.last_was_suggestion,
                }
            },
        }
    }

    /// The columns of the gutter that the brackets of the group need.
    fn group_depth_of(&self, elements: &Vec<Element>) -> (depth: usize)
        requires
            elements_ok(elements@),
        ensures
            depth == group_depth(elements@, 0, 0),
    {
        let mut depth: usize = 0;
        let mut k: usize = 0;
        while k < elements.len()
            invariant
                k <= elements.len(),
                elements_ok(elements@),
                group_depth(elements@, k as int, depth) == group_depth(elements@, 0, 0),
            decreases elements.len() - k,
        {
            if let Element::Cause(cause) = &elements[k] {
                let sm = SourceMap::new(cause.source.as_str(), cause.line_start);
                let (d, _) = sm.annotated_lines(&cause.markers, cause.fold);
                depth = larger(depth, d);
            }
            k += 1;
        }
        depth
    }

    /// Lays out one group on a canvas of its own.
    pub fn render_group(
        &self,
        group: &Group,
        first: bool,
        many: bool,
        max_line_num_len: usize,
        report_path: &Option<Vec<char>>,
    ) -> (buffer: StyledBuffer)
        requires
            elements_ok(group.elements@),
        ensures
            buffer@ == self.group_spec(*group, first, many, max_line_num_len, text_of(*report_path)),
    {
        let elements = &group.elements;
        let sep_col = max_line_num_len.saturating_add(1);
        let path = primary_path(elements);
        let shown = if path.is_some() {
            opt_copy(&path)
        } else {
            opt_copy(report_path)
        };
        let frame = GroupFrame {
            max_line_num_len,
            depth: self.group_depth_of(elements),
            first,
            many,
            primary_path: path,
            shown_path: shown,
        };
        let mut buffer = StyledBuffer::new();
        if let Some(title) = &group.title {
            let remark_follows = elements.len() > 0 && is_message(Some(&elements[0]));
            let heading = title.heading();
            self.render_title(
                &mut buffer,
                &heading,
                max_line_num_len,
                if first {
                    TitleStyle::MainHeader
                } else {
                    TitleStyle::Header
                },
                remark_follows,
                0,
            );
            let offset = buffer.num_lines();
            if remark_follows {
                self.draw_gutter_row(&mut buffer, sep_col);
            }
            if elements.len() == 0 && first && many {
                self.draw_col_separator_end(&mut buffer, offset, sep_col);
            }
        }
        let ghost headed = buffer@;
        let mut cursor = Cursor { seen_primary: false, last_was_suggestion: false };
        let mut k: usize = 0;
        while k < elements.len()
            invariant
                k <= elements.len(),
                elements_ok(elements@),
                self.elements_spec(
                    Progress {
                        rows: buffer@,
                        seen_primary: cursor.seen_primary,
                        last_was_suggestion: cursor.last_was_suggestion,
                    },
                    elements@,
                    k as int,
                    frame@,
                ) == self.elements_spec(
                    Progress { rows: headed, seen_primary: false, last_was_suggestion: false },
                    elements@,
                    0,
                    frame@,
                ),
            decreases elements.len() - k,
        {
            let next = if k + 1 < elements.len() {
                Some(&elements[k + 1])
            } else {
                None
            };
            cursor = self.render_element(&mut buffer, cursor, &elements[k], next, &frame);
            k += 1;
        }
        buffer
    }

    /// The first label of a primary annotation that says something, or
    /// nothing where there is none.
    fn primary_label(markers: &Vec<Annotation>) -> (label: Vec<char>)
        ensures
            label@ == first_label(markers@, 0),
    {
        let mut k: usize = 0;
        while k < markers.len()
            invariant
                k <= markers.len(),
                first_label(markers@, k as int) == first_label(markers@, 0),
            decreases markers.len() - k,
        {
            if let Some(label) = &markers[k].label {
                let text = chars_of(label.as_str());
                if markers[k].kind.is_primary() && !is_blank(&text) {
                    return text;
                }
            }
            k += 1;
        }
        Vec::new()
    }

    /// Renders a report on one line.
    pub fn render_short_message(&self, groups: &[Group]) -> (out: String)
        requires
            groups@.len() > 0,
            groups@[0].title is Some,
            elements_ok(groups@[0].elements@),
        ensures
            out@ == self.short_text(groups@),
    {
        let mut buffer = StyledBuffer::new();
        let group = &groups[0];
        let elements = &group.elements;
        let mut at: usize = 0;
        while at < elements.len() && !is_cause(&elements[at])
            invariant
                at <= elements.len(),
                first_cause(elements@, at as int) == first_cause(elements@, 0),
            decreases elements.len() - at,
        {
            at += 1;
        }
        let mut label: Vec<char> = Vec::new();
        if at < elements.len() {
            if let Element::Cause(cause) = &elements[at] {
                label = Renderer::primary_label(&cause.markers);
                if let Some(path) = &cause.path {
                    let sm = SourceMap::new(cause.source.as_str(), cause.line_start);
                    let (_, annotated_lines) = sm.annotated_lines(&cause.markers, cause.fold);
                    let place = crate::renderer::excerpt::origin_place_of(&annotated_lines, true);
                    let shown = chars_of(path.as_str());
                    self.render_origin(&mut buffer, 0, &shown, place.0, place.1, true, 0);
                    let colon: Vec<char> = vec![':', ' '];
                    proof {
                        assert(colon@ =~= seq![':', ' ']);
                    }
                    buffer.append(0, &colon, ElementStyle::LineAndColumn);
                }
            }
        }
        let level = match &group.title {
            Some(title) => {
                let heading = title.heading();
                // There are no line numbers in a report on one line.
                self.render_title(&mut buffer, &heading, 0, TitleStyle::MainHeader, false, 0);
                title.level.level
            },
            None => LevelInner::Error,
        };
        if label.len() > 0 {
            let mut text: Vec<char> = vec![':', ' '];
            crate::splice::extend_from(&mut text, &label, 0, label.len());
            proof {
                assert(label@.subrange(0, label@.len() as int) =~= label@);
                assert(text@ =~= seq![':', ' '] + label@);
            }
            buffer.append(0, &text, ElementStyle::NoStyle);
        }
        let mut out = String::new();
        buffer.render(level, &self.stylesheet, &mut out);
        proof {
            assert(out@ =~= self.short_text(groups@));
        }
        out
    }

    /// Appends the text of one group to `out`, and the blank line that
    /// follows it unless the group is the last.
    fn append_group(
        &self,
        out: &mut String,
        group: &Group,
        first: bool,
        many: bool,
        last: bool,
        max_line_num_len: usize,
        report_path: &Option<Vec<char>>,
    )
        requires
            elements_ok(group.elements@),
        ensures
            final(out)@ == old(out)@ + self.group_text(
                *group,
                first,
                many,
                max_line_num_len,
                text_of(*report_path),
            ) + if last {
                Seq::<char>::empty()
            } else {
                group_break()
            },
    {
        reveal(Renderer::group_text);
        let buffer = self.render_group(group, first, many, max_line_num_len, report_path);
        buffer.render(group.primary_level.level, &self.stylesheet, out);
        if !last {
            let blank: Vec<char> = vec!['\n', '\n'];
            proof {
                assert(blank@ =~= group_break());
            }
            push_chars(out, &blank);
        } else {
            proof {
                assert(out@ + Seq::<char>::empty() =~= out@);
            }
        }
    }

    /// Render a diagnostic, a series of groups.
    ///
    /// The text is a function of the renderer's settings and of the groups
    /// alone: a second call on the same values returns the same text.
    pub fn render(&self, groups: &[Group]) -> (out: String)
        requires
            self.renderable(groups@),
        ensures
            out@ == self.render_spec(groups@),
    {
        if self.short_message {
            return self.render_short_message(groups);
        }
        let max_line_num_len = if self.anonymized_line_numbers {
            2
        } else {
            crate::renderer::glyphs::num_decimal_digits(max_line_number(groups))
        };
        let mut out = String::new();
        let group_len = groups.len();
        let mut report_path: Option<Vec<char>> = None;
        let mut g: usize = 0;
        proof {
            assert(out@ + self.groups_text(groups@, 0, max_line_num_len, None) =~= self.groups_text(
                groups@,
                0,
                max_line_num_len,
                None,
            ));
        }
        while g < group_len
            invariant
                g <= group_len,
                group_len == groups@.len(),
                self.renderable(groups@),
                out@ + self.groups_text(groups@, g as int, max_line_num_len, text_of(report_path))
                    == self.groups_text(groups@, 0, max_line_num_len, None),
            decreases group_len - g,
        {
            let group = &groups[g];
            let ghost before = out@;
            let ghost rest = self.groups_text(
                groups@,
                g + 1,
                max_line_num_len,
                if text_of(report_path) is None {
                    primary_path_of(group.elements@)
                } else {
                    text_of(report_path)
                },
            );
            proof {
                assert(elements_ok(groups@[g as int].elements@));
            }
            self.append_group(&mut out, group, g == 0, group_len > 1, g == group_len - 1, max_line_num_len, &report_path);
            proof {
                let text = self.group_text(
                    *group,
                    g == 0,
                    group_len > 1,
                    max_line_num_len,
                    text_of(report_path),
                );
                if g != group_len - 1 {
                    assert(out@ + rest =~= before + (text + group_break() + rest));
                } else {
                    assert(out@ + rest =~= before + (text + rest));
                }
            }
            if report_path.is_none() {
                report_path = primary_path(&group.elements);
            }
            g += 1;
        }
        proof {
            assert(out@ + Seq::<char>::empty() =~= out@);
        }
        out
    }
}

fn is_cause_ok(c: &Snippet<Annotation>) -> (b: bool)
    ensures
        b == cause_ok(*c),
{
    let bytes = c.source.as_str().as_bytes();
    let size = bytes.len();
    proof {
        crate::source_map::lemma_byte_len_is_encoded_len(c.source@);
        assert(bytes@.len() == size);
    }
    let mut k: usize = 0;
    while k < c.markers.len()
        invariant
            k <= c.markers.len(),
            size == byte_len(c.source@),
            forall|i: int| 0 <= i < k ==> (#[trigger] c.markers@[i]).span.end <= size + 1,
        decreases c.markers.len() - k,
    {
        if c.markers[k].span.end > size && c.markers[k].span.end - size > 1 {
            return false;
        }
        k += 1;
    }
    true
}

fn are_elements_ok(elements: &Vec<Element>) -> (b: bool)
    ensures
        b == elements_ok(elements@),
{
    let mut k: usize = 0;
    while k < elements.len()
        invariant
            k <= elements.len(),
            forall|i: int|
                0 <= i < k ==> ((#[trigger] elements@[i]) matches Element::Cause(c) ==> cause_ok(c)),
        decreases elements.len() - k,
    {
        if let Element::Cause(c) = &elements[k] {
            if !is_cause_ok(c) {
                return false;
            }
        }
        k += 1;
    }
    true
}

impl Renderer {
    /// Whether `render` takes the report.
    pub fn is_renderable(&self, groups: &[Group]) -> (b: bool)
        ensures
            b == self.renderable(groups@),
    {
        let mut g: usize = 0;
        while g < groups.len()
            invariant
                g <= groups.len(),
                forall|i: int| 0 <= i < g ==> elements_ok((#[trigger] groups@[i]).elements@),
            decreases groups.len() - g,
        {
            if !are_elements_ok(&groups[g].elements) {
                return false;
            }
            g += 1;
        }
        !self.short_message || (groups.len() > 0 && groups[0].title.is_some())
    }

    /// The text of the report, if it can be rendered.
    pub fn try_render(&self, groups: &[Group]) -> (out: Option<String>)
        ensures
            out is Some == self.renderable(groups@),
            out matches Some(text) ==> text@ == self.render_spec(groups@),
    {
        if self.is_renderable(groups) {
            Some(self.render(groups))
        } else {
            None
        }
    }
}

} // verus!
