//! What a report is made of: groups of titles, messages, annotated source
//! excerpts, suggested edits and pointers into files.

use crate::level::Level;
use core::ops::Range;
use vstd::prelude::*;
use vstd::std_specs::convert::IntoSpec;

verus! {

/// A code that identifies the kind of report, and where to read about it.
#[derive(Clone, Debug)]
pub struct Id {
    pub id: Option<String>,
    pub url: Option<String>,
}

/// The heading of a group.
#[derive(Clone, Debug)]
pub struct Title {
    pub level: Level,
    pub id: Option<Id>,
    pub text: String,
}

/// A remark below the heading, such as a note or a hint.
#[derive(Clone, Debug)]
pub struct Message {
    pub level: Level,
    pub text: String,
}

/// A half-open range of byte offsets into the text of an excerpt.
#[derive(Clone, Copy, Debug, PartialEq, Eq, Structural)]
pub struct Span {
    pub start: usize,
    pub end: usize,
}

/// How much weight an annotation carries.
#[derive(Clone, Copy, Debug, PartialEq, Eq, Structural)]
pub enum AnnotationKind {
    /// The place the report is about.
    Primary,
    /// A place that helps to understand it.
    Context,
}

/// A marked range of bytes of an excerpt, with an optional label.
#[derive(Clone, Debug)]
pub struct Annotation {
    pub span: Span,
    pub label: Option<String>,
    pub kind: AnnotationKind,
    pub highlight_source: bool,
}

/// A suggested replacement for a range of bytes of an excerpt.
#[derive(Clone, Debug)]
pub struct Patch {
    pub span: Span,
    pub replacement: String,
}

/// A piece of source text with the markers that point into it.
#[derive(Clone, Debug)]
pub struct Snippet<T> {
    pub path: Option<String>,
    pub line_start: usize,
    pub source: String,
    pub markers: Vec<T>,
    pub fold: bool,
}

/// A place in a file, shown without any source text.
#[derive(Clone, Debug)]
pub struct Origin {
    pub path: String,
    pub line: Option<usize>,
    pub char_column: Option<usize>,
    pub primary: bool,
}

/// An empty line of the gutter.
#[derive(Clone, Copy, Debug)]
pub struct Padding;

/// One part of a group.
#[derive(Clone, Debug)]
pub enum Element {
    Message(Message),
    Cause(Snippet<Annotation>),
    Suggestion(Snippet<Patch>),
    Origin(Origin),
    Padding(Padding),
}

/// A heading and the parts shown below it, in order.
#[derive(Clone, Debug)]
pub struct Group {
    pub primary_level: Level,
    pub title: Option<Title>,
    pub elements: Vec<Element>,
}

impl Level {
    /// A heading of this level.
    pub fn title(self, text: &str) -> (t: Title)
        ensures
            t.level == self,
            t.id is None,
            t.text@ == text@,
    {
        Title { level: self, id: None, text: text.to_owned() }
    }

    /// A remark of this level.
    pub fn message(self, text: &str) -> (m: Message)
        ensures
            m.level == self,
            m.text@ == text@,
    {
        Message { level: self, text: text.to_owned() }
    }
}

impl Title {
    /// Sets the code shown in brackets after the level's name.
    pub fn id(self, id: &str) -> (t: Title)
        ensures
            t.level == self.level,
            t.text == self.text,
            t.id matches Some(i) && (i.id matches Some(s) && s@ == id@) && i.url == (match self.id {
                Some(old) => old.url,
                None => None,
            }),
    {
        let url = match self.id {
            Some(old) => old.url,
            None => None,
        };
        Title { level: self.level, id: Some(Id { id: Some(id.to_owned()), url }), text: self.text }
    }

    /// Sets the address that the code links to.
    pub fn id_url(self, url: &str) -> (t: Title)
        ensures
            t.level == self.level,
            t.text == self.text,
            t.id matches Some(i) && (i.url matches Some(s) && s@ == url@) && i.id == (match self.id {
                Some(old) => old.id,
                None => None,
            }),
    {
        let id = match self.id {
            Some(old) => old.id,
            None => None,
        };
        Title { level: self.level, id: Some(Id { id, url: Some(url.to_owned()) }), text: self.text }
    }
}

impl AnnotationKind {
    /// An annotation of this kind on the bytes `span`, without a label.
    pub fn span(self, span: Range<usize>) -> (a: Annotation)
        ensures
            a.span.start == span.start,
            a.span.end == span.end,
            a.label is None,
            a.kind == self,
            !a.highlight_source,
    {
        Annotation {
            span: Span { start: span.start, end: span.end },
            label: None,
            kind: self,
            highlight_source: false,
        }
    }

    /// Whether the kind is the primary one.
    pub open spec fn primary(self) -> bool {
        self == AnnotationKind::Primary
    }

    /// Whether the kind is the primary one.
    #[verifier::when_used_as_spec(primary)]
    pub fn is_primary(self) -> (b: bool)
        ensures
            b == self.primary(),
    {
        match self {
            AnnotationKind::Primary => true,
            AnnotationKind::Context => false,
        }
    }
}

impl Annotation {
    /// Sets the text shown beside the annotation.
    pub fn label(self, label: &str) -> (a: Annotation)
        ensures
            a.span == self.span,
            a.kind == self.kind,
            a.highlight_source == self.highlight_source,
            a.label matches Some(l) && l@ == label@,
    {
        Annotation {
            span: self.span,
            label: Some(label.to_owned()),
            kind: self.kind,
            highlight_source: self.highlight_source,
        }
    }

    /// Chooses whether the annotated source text itself takes the annotation's colour.
    pub fn highlight_source(self, highlight_source: bool) -> (a: Annotation)
        ensures
            a.span == self.span,
            a.kind == self.kind,
            a.label == self.label,
            a.highlight_source == highlight_source,
    {
        Annotation { span: self.span, label: self.label, kind: self.kind, highlight_source }
    }
}

impl Patch {
    /// The suggestion to put `replacement` in place of the bytes `span`.
    pub fn new(span: Range<usize>, replacement: &str) -> (p: Patch)
        ensures
            p.span.start == span.start,
            p.span.end == span.end,
            p.replacement@ == replacement@,
    {
        Patch { span: Span { start: span.start, end: span.end }, replacement: replacement.to_owned() }
    }
}

impl<T> Snippet<T> {
    /// An excerpt that holds `source`: its first line has the number 1, it
    /// has no path and no markers, and lines without markers are left out.
    pub fn source(source: &str) -> (s: Snippet<T>)
        ensures
            s.path is None,
            s.line_start == 1,
            s.source@ == source@,
            s.markers@.len() == 0,
            s.fold,
    {
        Snippet { path: None, line_start: 1, source: source.to_owned(), markers: Vec::new(), fold: true }
    }

    /// Sets the number of the first line.
    pub fn line_start(self, line_start: usize) -> (s: Snippet<T>)
        ensures
            s.path == self.path,
            s.line_start == line_start,
            s.source == self.source,
            s.markers == self.markers,
            s.fold == self.fold,
    {
        Snippet {
            path: self.path,
            line_start,
            source: self.source,
            markers: self.markers,
            fold: self.fold,
        }
    }

    /// Sets the path of the file that the excerpt is from.
    pub fn path(self, path: &str) -> (s: Snippet<T>)
        ensures
            s.path matches Some(p) && p@ == path@,
            s.line_start == self.line_start,
            s.source == self.source,
            s.markers == self.markers,
            s.fold == self.fold,
    {
        Snippet {
            path: Some(path.to_owned()),
            line_start: self.line_start,
            source: self.source,
            markers: self.markers,
            fold: self.fold,
        }
    }

    /// Chooses whether lines without markers are left out.
    pub fn fold(self, fold: bool) -> (s: Snippet<T>)
        ensures
            s.path == self.path,
            s.line_start == self.line_start,
            s.source == self.source,
            s.markers == self.markers,
            s.fold == fold,
    {
        Snippet {
            path: self.path,
            line_start: self.line_start,
            source: self.source,
            markers: self.markers,
            fold,
        }
    }

    /// Adds one marker after those the excerpt has.
    fn marker(self, marker: T) -> (s: Snippet<T>)
        ensures
            s.path == self.path,
            s.line_start == self.line_start,
            s.source == self.source,
            s.markers@ == self.markers@.push(marker),
            s.fold == self.fold,
    {
        let mut markers = self.markers;
        markers.push(marker);
        Snippet {
            path: self.path,
            line_start: self.line_start,
            source: self.source,
            markers,
            fold: self.fold,
        }
    }
}

impl Snippet<Annotation> {
    /// Adds an annotation after those the excerpt has.
    pub fn annotation(self, annotation: Annotation) -> (s: Snippet<Annotation>)
        ensures
            s.path == self.path,
            s.line_start == self.line_start,
            s.source == self.source,
            s.markers@ == self.markers@.push(annotation),
            s.fold == self.fold,
    {
        self.marker(annotation)
    }
}

impl Snippet<Patch> {
    /// Adds a suggested edit after those the excerpt has.
    pub fn patch(self, patch: Patch) -> (s: Snippet<Patch>)
        ensures
            s.path == self.path,
            s.line_start == self.line_start,
            s.source == self.source,
            s.markers@ == self.markers@.push(patch),
            s.fold == self.fold,
    {
        self.marker(patch)
    }
}

impl Origin {
    /// A pointer to the file at `path`, with no line and no column.
    pub fn path(path: &str) -> (o: Origin)
        ensures
            o.path@ == path@,
            o.line is None,
            o.char_column is None,
            !o.primary,
    {
        Origin { path: path.to_owned(), line: None, char_column: None, primary: false }
    }

    /// Sets the line that is pointed to.
    pub fn line(self, line: usize) -> (o: Origin)
        ensures
            o.path == self.path,
            o.line == Some(line),
            o.char_column == self.char_column,
            o.primary == self.primary,
    {
        Origin { path: self.path, line: Some(line), char_column: self.char_column, primary: self.primary }
    }

    /// Sets the column that is pointed to.
    pub fn char_column(self, char_column: usize) -> (o: Origin)
        ensures
            o.path == self.path,
            o.line == self.line,
            o.char_column == Some(char_column),
            o.primary == self.primary,
    {
        Origin { path: self.path, line: self.line, char_column: Some(char_column), primary: self.primary }
    }

    /// Chooses whether this is the place that the report is about.
    pub fn primary(self, primary: bool) -> (o: Origin)
        ensures
            o.path == self.path,
            o.line == self.line,
            o.char_column == self.char_column,
            o.primary == primary,
    {
        Origin { path: self.path, line: self.line, char_column: self.char_column, primary }
    }
}

impl From<Message> for Element {
    fn from(value: Message) -> (e: Element) {
        Element::Message(value)
    }
}

impl vstd::std_specs::convert::FromSpecImpl<Message> for Element {
    open spec fn obeys_from_spec() -> bool {
        true
    }

    open spec fn from_spec(value: Message) -> Element {
        Element::Message(value)
    }
}

impl From<Snippet<Annotation>> for Element {
    fn from(value: Snippet<Annotation>) -> (e: Element) {
        Element::Cause(value)
    }
}

impl vstd::std_specs::convert::FromSpecImpl<Snippet<Annotation>> for Element {
    open spec fn obeys_from_spec() -> bool {
        true
    }

    open spec fn from_spec(value: Snippet<Annotation>) -> Element {
        Element::Cause(value)
    }
}

impl From<Snippet<Patch>> for Element {
    fn from(value: Snippet<Patch>) -> (e: Element) {
        Element::Suggestion(value)
    }
}

impl vstd::std_specs::convert::FromSpecImpl<Snippet<Patch>> for Element {
    open spec fn obeys_from_spec() -> bool {
        true
    }

    open spec fn from_spec(value: Snippet<Patch>) -> Element {
        Element::Suggestion(value)
    }
}

impl From<Origin> for Element {
    fn from(value: Origin) -> (e: Element) {
        Element::Origin(value)
    }
}

impl vstd::std_specs::convert::FromSpecImpl<Origin> for Element {
    open spec fn obeys_from_spec() -> bool {
        true
    }

    open spec fn from_spec(value: Origin) -> Element {
        Element::Origin(value)
    }
}

impl From<Padding> for Element {
    fn from(value: Padding) -> (e: Element) {
        Element::Padding(value)
    }
}

impl vstd::std_specs::convert::FromSpecImpl<Padding> for Element {
    open spec fn obeys_from_spec() -> bool {
        true
    }

    open spec fn from_spec(value: Padding) -> Element {
        Element::Padding(value)
    }
}

impl Group {
    /// A group under the heading `title`.
    pub fn with_title(title: Title) -> (g: Group)
        ensures
            g.primary_level.level == title.level.level,
            g.title == Some(title),
            g.elements@.len() == 0,
    {
        let level = Level { name: None, level: title.level.level };
        Group { primary_level: level, title: Some(title), elements: Vec::new() }
    }

    /// A group without a heading, whose primary annotations take the colour of `level`.
    pub fn with_level(level: Level) -> (g: Group)
        ensures
            g.primary_level == level,
            g.title is None,
            g.elements@.len() == 0,
    {
        Group { primary_level: level, title: None, elements: Vec::new() }
    }

    /// Adds a part below those the group has.
    pub fn element<E: Into<Element>>(self, section: E) -> (g: Group)
        ensures
            g.primary_level == self.primary_level,
            g.title == self.title,
            g.elements@.len() == self.elements@.len() + 1,
            g.elements@.drop_last() == self.elements@,
            E::obeys_into_spec() ==> g.elements@ == self.elements@.push(section.into_spec()),
    {
        let mut elements = self.elements;
        let added = section.into();
        elements.push(added);
        proof {
            assert(elements@.drop_last() =~= self.elements@);
        }
        Group { primary_level: self.primary_level, title: self.title, elements }
    }

    /// Whether the group has neither a heading nor a part.
    pub fn is_empty(&self) -> (b: bool)
        ensures
            b == (self.elements@.len() == 0 && self.title is None),
    {
        self.elements.len() == 0 && self.title.is_none()
    }
}

} // verus!
