//! Where a byte offset lies in a source text: its line, its column in
//! characters and its column on the screen.

use crate::snippet::Span;
use crate::text::{
    byte_len, char_len_utf8, char_width, chars_of, find_char, find_from, lemma_byte_len_bounds,
    lemma_byte_len_concat, lemma_byte_len_single, lemma_find_char, lemma_text_width_push, saturate, slice_of,
    text_width, utf8_len,
};
use vstd::prelude::*;
use vstd::utf8::encode_utf8;

verus! {

/// A position in a source text.
#[derive(Clone, Copy, Debug, PartialEq, Eq, Structural)]
pub struct Loc {
    /// Number of the line.
    pub line: usize,
    /// Characters of the line before the position.
    pub char: usize,
    /// Columns that those characters take on the screen.
    pub display: usize,
    /// Bytes of the whole text before the position.
    pub byte: usize,
}

/// One line of a source text.
#[derive(Debug)]
pub struct LineInfo {
    /// The line without its line break.
    pub line: Vec<char>,
    /// Number of the line.
    pub line_index: usize,
    /// Characters of the text before the line.
    pub start_char: usize,
    /// Bytes of the text before the line.
    pub start_byte: usize,
    /// Bytes of the text up to the end of the line's line break.
    pub end_byte: usize,
    /// Bytes of the line break: 0 at the end of the text, 1 or 2 otherwise.
    pub end_line_size: usize,
}

/// A source text, cut into lines.
#[derive(Debug)]
pub struct SourceMap {
    pub lines: Vec<LineInfo>,
    pub source: Vec<char>,
    pub line_start: usize,
}

/// What a line of a source text holds.
pub struct LineView {
    pub line: Seq<char>,
    pub line_index: usize,
    pub start_char: usize,
    pub start_byte: usize,
    pub end_byte: usize,
    pub end_line_size: usize,
}

/// What a source map holds.
pub struct SourceMapView {
    pub lines: Seq<LineView>,
    pub source: Seq<char>,
    pub line_start: usize,
}

impl View for LineInfo {
    type V = LineView;

    open spec fn view(&self) -> LineView {
        LineView {
            line: self.line@,
            line_index: self.line_index,
            start_char: self.start_char,
            start_byte: self.start_byte,
            end_byte: self.end_byte,
            end_line_size: self.end_line_size,
        }
    }
}

/// What each of `lines` holds.
pub open spec fn line_views(lines: Seq<LineInfo>) -> Seq<LineView> {
    Seq::new(lines.len(), |i: int| lines[i]@)
}

impl View for SourceMap {
    type V = SourceMapView;

    open spec fn view(&self) -> SourceMapView {
        SourceMapView {
            lines: line_views(self.lines@),
            source: self.source@,
            line_start: self.line_start,
        }
    }
}

impl SourceMap {
    /// The lines cover the text in order.
    pub open spec fn wf(&self) -> bool {
        self@.wf()
    }
}

/// The line of `source` that starts at character `pos` and is the line
/// number `idx` of the text, counted from 0.
pub open spec fn line_from(source: Seq<char>, line_start: usize, pos: int, idx: int) -> LineView {
    let x = find_char(source, '\n', pos);
    let crlf = pos < x < source.len() && source[x - 1] == '\r';
    let text_end = if crlf {
        x - 1
    } else {
        x
    };
    let next = if x < source.len() {
        x + 1
    } else {
        source.len() as int
    };
    LineView {
        line: source.subrange(pos, text_end),
        line_index: saturate(line_start + idx),
        start_char: pos as usize,
        start_byte: byte_len(source.take(pos)) as usize,
        end_byte: byte_len(source.take(next)) as usize,
        end_line_size: (next - text_end) as usize,
    }
}

/// The lines of `source` from character `pos` on, where `idx` lines come before.
pub open spec fn lines_from(source: Seq<char>, line_start: usize, pos: int, idx: int) -> Seq<LineView>
    decreases source.len() - pos,
{
    if pos >= source.len() || pos < 0 {
        Seq::empty()
    } else {
        let x = find_char(source, '\n', pos);
        if x >= source.len() || x < pos {
            seq![line_from(source, line_start, pos, idx)]
        } else {
            seq![line_from(source, line_start, pos, idx)] + lines_from(
                source,
                line_start,
                x + 1,
                idx + 1,
            )
        }
    }
}

/// The map of `source`: its lines, each the text between two line breaks
/// without the carriage return before a line break, numbered from
/// `line_start`. An empty text has one empty line.
pub open spec fn map_of(source: Seq<char>, line_start: usize) -> SourceMapView {
    SourceMapView {
        lines: if source.len() == 0 {
            seq![line_from(source, line_start, 0, 0)]
        } else {
            lines_from(source, line_start, 0, 0)
        },
        source,
        line_start,
    }
}

/// The byte length of a text is the length of its UTF-8 encoding.
pub proof fn lemma_byte_len_is_encoded_len(s: Seq<char>)
    ensures
        byte_len(s) == encode_utf8(s).len(),
    decreases s.len(),
{
    if s.len() > 0 {
        vstd::utf8::char_is_scalar(s[0]);
        assert(s =~= seq![s[0]] + s.drop_first());
        lemma_byte_len_concat(seq![s[0]], s.drop_first());
        lemma_byte_len_single(s[0]);
        lemma_byte_len_is_encoded_len(s.drop_first());
    }
}

/// Bytes of a part of a text, from the bytes before its start and its end.
pub proof fn lemma_byte_len_subrange(s: Seq<char>, i: int, j: int)
    requires
        0 <= i <= j <= s.len(),
    ensures
        byte_len(s.take(j)) == byte_len(s.take(i)) + byte_len(s.subrange(i, j)),
        byte_len(s.take(j)) <= byte_len(s),
{
    assert(s.take(j) =~= s.take(i) + s.subrange(i, j));
    lemma_byte_len_concat(s.take(i), s.subrange(i, j));
    assert(s =~= s.take(j) + s.skip(j));
    lemma_byte_len_concat(s.take(j), s.skip(j));
}

/// Number of bytes of `s`.
pub fn bytes_of(s: &Vec<char>) -> (n: usize)
    requires
        byte_len(s@) <= usize::MAX,
    ensures
        n == byte_len(s@),
{
    let mut n: usize = 0;
    let mut i: usize = 0;
    while i < s.len()
        invariant
            i <= s.len(),
            byte_len(s@) <= usize::MAX,
            n == byte_len(s@.take(i as int)),
        decreases s.len() - i,
    {
        proof {
            lemma_byte_len_subrange(s@, i as int, i + 1);
            assert(s@.subrange(i as int, i + 1) =~= seq![s@[i as int]]);
            lemma_byte_len_single(s@[i as int]);
        }
        n = n + char_len_utf8(s[i]);
        i += 1;
    }
    proof {
        assert(s@.take(s.len() as int) =~= s@);
    }
    n
}

impl LineInfo {
    /// Bytes of the line without its line break.
    pub open spec fn text_bytes(&self) -> int {
        self.end_byte - self.end_line_size - self.start_byte
    }
}

impl SourceMapView {
    /// What holds of line `i` of a map of `self.source`.
    pub open spec fn line_wf(&self, i: int) -> bool {
        let l = self.lines[i];
        let s = self.source;
        let after = l.start_char + l.line.len();
        &&& after + l.end_line_size <= s.len()
        &&& l.line == s.subrange(l.start_char as int, after)
        &&& l.start_byte == byte_len(s.take(l.start_char as int))
        &&& l.end_byte == l.start_byte + byte_len(l.line) + l.end_line_size
        &&& l.line_index == saturate(self.line_start + i)
        &&& l.end_line_size <= 2
        &&& forall|k: int| 0 <= k < l.line.len() ==> #[trigger] l.line[k] != '\n'
        &&& l.end_line_size == 1 ==> s[after] == '\n'
        &&& l.end_line_size == 2 ==> s[after] == '\r' && s[after + 1] == '\n'
        &&& i + 1 < self.lines.len() ==> self.lines[i + 1].start_char == after
            + l.end_line_size
        &&& i + 1 == self.lines.len() ==> after + l.end_line_size == s.len()
    }

    /// The lines cover the text in order: each line is the text between two
    /// line breaks, its byte offsets count the UTF-8 bytes before it, and the
    /// lines are numbered from `line_start`.
    pub open spec fn wf(&self) -> bool {
        &&& self.lines.len() >= 1
        &&& byte_len(self.source) <= usize::MAX
        &&& self.lines[0].start_char == 0
        &&& forall|i: int| 0 <= i < self.lines.len() ==> #[trigger] self.line_wf(i)
    }

    /// Index of the first line from `from` on with the number `idx`, or the
    /// number of lines.
    pub open spec fn first_line_at(&self, idx: usize, from: int) -> int
        decreases self.lines.len() - from,
    {
        if from >= self.lines.len() {
            self.lines.len() as int
        } else if from >= 0 && self.lines[from].line_index == idx {
            from
        } else {
            self.first_line_at(idx, from + 1)
        }
    }

    /// The text of the first line with the number `idx`.
    pub open spec fn line_text(&self, idx: usize) -> Option<Seq<char>> {
        if 0 <= self.first_line_at(idx, 0) < self.lines.len() {
            Some(self.lines[self.first_line_at(idx, 0)].line)
        } else {
            None
        }
    }
}

impl SourceMap {
    /// The map of `source`, whose first line has the number `line_start`.
    pub fn new(source: &str, line_start: usize) -> (sm: SourceMap)
        ensures
            sm@ == map_of(source@, line_start),
            sm@.wf(),
            sm.source@ == source@,
            sm.line_start == line_start,
    {
        let chars = chars_of(source);
        let bytes = source.as_bytes();
        let size = bytes.len();
        proof {
            lemma_byte_len_is_encoded_len(source@);
            assert(bytes@.len() == size);
        }
        SourceMap::from_chars(chars, line_start)
    }

    /// The map of the text `chars`, whose first line has the number `line_start`.
    #[verifier::rlimit(60)]
    pub fn from_chars(chars: Vec<char>, line_start: usize) -> (sm: SourceMap)
        requires
            byte_len(chars@) <= usize::MAX,
        ensures
            sm@ == map_of(chars@, line_start),
            sm@.wf(),
            sm.source@ == chars@,
            sm.line_start == line_start,
    {
        let n = chars.len();
        let mut lines: Vec<LineInfo> = Vec::new();
        if n == 0 {
            lines.push(
                LineInfo {
                    line: Vec::new(),
                    line_index: line_start,
                    start_char: 0,
                    start_byte: 0,
                    end_byte: 0,
                    end_line_size: 0,
                },
            );
            let sm = SourceMap { lines, source: chars, line_start };
            proof {
                assert(sm.source@.take(0) =~= Seq::<char>::empty());
                assert(sm.lines@[0].line@ =~= sm.source@.subrange(0, 0));
                assert(sm@.line_wf(0));
                assert(line_views(sm.lines@) =~= seq![line_from(sm.source@, line_start, 0, 0)]);
            }
            return sm;
        }
        let mut pos: usize = 0;
        let mut bpos: usize = 0;
        let ghost s = chars@;
        proof {
            assert(s.take(0) =~= Seq::<char>::empty());
            assert(line_views(lines@) + lines_from(s, line_start, 0, 0) =~= lines_from(
                s,
                line_start,
                0,
                0,
            ));
        }
        while pos < n
            invariant
                n == chars.len(),
                n > 0,
                s == chars@,
                line_views(lines@) + lines_from(s, line_start, pos as int, lines@.len() as int)
                    == lines_from(s, line_start, 0, 0),
                byte_len(s) <= usize::MAX,
                pos <= n,
                bpos == byte_len(s.take(pos as int)),
                lines@.len() == 0 ==> pos == 0,
                lines@.len() > 0 ==> lines@[0].start_char == 0,
                lines@.len() > 0 ==> pos == lines@[lines@.len() - 1].start_char + lines@[lines@.len()
                    - 1].line@.len() + lines@[lines@.len() - 1].end_line_size,
                forall|i: int|
                    0 <= i < lines@.len() ==> {
                        let l = #[trigger] lines@[i];
                        let after = l.start_char + l.line@.len();
                        &&& after + l.end_line_size <= s.len()
                        &&& l.line@ == s.subrange(l.start_char as int, after)
                        &&& l.start_byte == byte_len(s.take(l.start_char as int))
                        &&& l.end_byte == l.start_byte + byte_len(l.line@) + l.end_line_size
                        &&& l.line_index == saturate(line_start + i)
                        &&& l.end_line_size <= 2
                        &&& forall|k: int| 0 <= k < l.line@.len() ==> #[trigger] l.line@[k] != '\n'
                        &&& l.end_line_size == 1 ==> s[after] == '\n'
                        &&& l.end_line_size == 2 ==> s[after] == '\r' && s[after + 1] == '\n'
                    },
                forall|i: int|
                    0 <= i < lines@.len() - 1 ==> (#[trigger] lines@[i + 1]).start_char == lines@[i].start_char
                        + lines@[i].line@.len() + lines@[i].end_line_size,
            decreases n - pos,
        {
            let x = find_from(&chars, '\n', pos);
            proof {
                lemma_find_char(s, '\n', pos as int);
            }
            let crlf = x < n && x > pos && chars[x - 1] == '\r';
            let text_end: usize = if crlf {
                x - 1
            } else {
                x
            };
            let end_line_size: usize = if x < n {
                if crlf {
                    2
                } else {
                    1
                }
            } else {
                0
            };
            let next: usize = if x < n {
                x + 1
            } else {
                n
            };
            let line = slice_of(&chars, pos, text_end);
            proof {
                lemma_byte_len_subrange(s, pos as int, text_end as int);
                lemma_byte_len_subrange(s, text_end as int, next as int);
                lemma_byte_len_subrange(s, 0, next as int);
                let term = s.subrange(text_end as int, next as int);
                if end_line_size == 1 {
                    assert(term =~= seq!['\n']);
                    lemma_byte_len_single('\n');
                } else if end_line_size == 2 {
                    assert(term =~= seq!['\r'] + seq!['\n']);
                    lemma_byte_len_concat(seq!['\r'], seq!['\n']);
                    lemma_byte_len_single('\r');
                    lemma_byte_len_single('\n');
                } else {
                    assert(term =~= Seq::<char>::empty());
                }
            }
            let line_bytes = bytes_of(&line);
            let index = line_start.saturating_add(lines.len());
            let ghost before = lines@;
            lines.push(
                LineInfo {
                    line,
                    line_index: index,
                    start_char: pos,
                    start_byte: bpos,
                    end_byte: bpos + line_bytes + end_line_size,
                    end_line_size,
                },
            );
            proof {
                assert(forall|i: int| 0 <= i < before.len() ==> lines@[i] == before[i]);
                let made = lines@[before.len() as int]@;
                let want = line_from(s, line_start, pos as int, before.len() as int);
                assert(made.line =~= want.line);
                assert(made == want);
                let rest = lines_from(s, line_start, next as int, (before.len() + 1) as int);
                if x >= n {
                    assert(rest =~= Seq::<LineView>::empty());
                }
                assert(line_views(lines@) =~= line_views(before).push(made));
                assert(line_views(lines@) + rest =~= line_views(before) + (seq![want] + rest));
            }
            bpos = bpos + line_bytes + end_line_size;
            pos = next;
        }
        let sm = SourceMap { lines, source: chars, line_start };
        proof {
            assert(line_views(sm.lines@) + Seq::<LineView>::empty() =~= line_views(sm.lines@));
            assert forall|i: int| 0 <= i < sm.lines@.len() implies #[trigger] sm@.line_wf(i) by {
                let l = sm.lines@[i];
                if i + 1 < sm.lines@.len() {
                    assert(sm.lines@[i + 1].start_char == l.start_char + l.line@.len()
                        + l.end_line_size);
                }
            }
        }
        sm
    }

    /// Position in `self.lines` of the first line with the number `idx`.
    pub fn find_line(&self, idx: usize) -> (found: Option<usize>)
        ensures
            found matches Some(i) ==> i < self.lines@.len() && self.lines@[i as int].line_index == idx
                && i == self@.first_line_at(idx, 0),
            found is None ==> forall|i: int|
                0 <= i < self.lines@.len() ==> (#[trigger] self.lines@[i]).line_index != idx,
            found is None ==> self@.first_line_at(idx, 0) == self.lines@.len(),
    {
        let mut i: usize = 0;
        while i < self.lines.len()
            invariant
                i <= self.lines.len(),
                self@.first_line_at(idx, 0) == self@.first_line_at(idx, i as int),
                forall|k: int| 0 <= k < i ==> (#[trigger] self.lines@[k]).line_index != idx,
            decreases self.lines.len() - i,
        {
            if self.lines[i].line_index == idx {
                return Some(i);
            }
            i += 1;
        }
        None
    }

    /// The text of the line with the number `idx`.
    pub fn get_line(&self, idx: usize) -> (line: Option<&Vec<char>>)
        ensures
            line is Some == self@.line_text(idx) is Some,
            line matches Some(l) ==> Some(l@) == self@.line_text(idx),
            line matches Some(l) ==> self@.first_line_at(idx, 0) < self.lines@.len() && *l
                == self.lines@[self@.first_line_at(idx, 0)].line,
            line is None ==> forall|i: int|
                0 <= i < self.lines@.len() ==> (#[trigger] self.lines@[i]).line_index != idx,
    {
        match self.find_line(idx) {
            Some(i) => Some(&self.lines[i].line),
            None => None,
        }
    }
}

/// Number of whole characters of `line` within its first `k` bytes.
pub open spec fn chars_within(line: Seq<char>, k: int) -> nat
    decreases line.len(),
{
    if line.len() == 0 || utf8_len(line[0]) > k {
        0
    } else {
        1 + chars_within(line.drop_first(), k - utf8_len(line[0]))
    }
}

/// The characters within the bytes of a prefix are the characters of that prefix.
pub proof fn lemma_chars_within_prefix(line: Seq<char>, m: int)
    requires
        0 <= m <= line.len(),
    ensures
        chars_within(line, byte_len(line.take(m)) as int) == m,
    decreases line.len(),
{
    if line.len() == 0 {
        assert(line.take(m) =~= Seq::<char>::empty());
    } else if m == 0 {
        assert(line.take(0) =~= Seq::<char>::empty());
    } else {
        let rest = line.drop_first();
        assert(line.take(m) =~= seq![line[0]] + rest.take(m - 1));
        lemma_byte_len_concat(seq![line[0]], rest.take(m - 1));
        lemma_byte_len_single(line[0]);
        lemma_chars_within_prefix(rest, m - 1);
    }
}

/// More bytes never hold fewer characters, and never more than the line has.
pub proof fn lemma_chars_within_monotone(line: Seq<char>, j: int, k: int)
    requires
        j <= k,
    ensures
        chars_within(line, j) <= chars_within(line, k) <= line.len(),
    decreases line.len(),
{
    if line.len() == 0 || utf8_len(line[0]) > k {
    } else {
        lemma_chars_within_monotone(line.drop_first(), j - utf8_len(line[0]), k - utf8_len(line[0]));
    }
}

/// Whether `offset` bytes of `s` end between two characters.
pub open spec fn is_boundary(s: Seq<char>, offset: int) -> bool {
    exists|j: int| 0 <= j <= s.len() && byte_len(#[trigger] s.take(j)) == offset
}

/// Number of characters of `s` within its first `offset` bytes, where these
/// end between two characters.
pub open spec fn boundary_index(s: Seq<char>, offset: int) -> int {
    choose|j: int| 0 <= j <= s.len() && byte_len(#[trigger] s.take(j)) == offset
}

/// Only one count of characters has a given count of bytes.
pub proof fn lemma_boundary_unique(s: Seq<char>, j: int)
    requires
        0 <= j <= s.len(),
    ensures
        is_boundary(s, byte_len(s.take(j)) as int),
        boundary_index(s, byte_len(s.take(j)) as int) == j,
{
    let offset = byte_len(s.take(j)) as int;
    let k = boundary_index(s, offset);
    if k < j {
        crate::text::lemma_byte_len_take_monotone(s, k, j);
    } else if j < k {
        crate::text::lemma_byte_len_take_monotone(s, j, k);
    }
}

/// Number of characters of `s` within its first `offset` bytes, if these end
/// between two characters.
pub fn char_index(s: &Vec<char>, offset: usize) -> (found: Option<usize>)
    requires
        byte_len(s@) <= usize::MAX,
    ensures
        found matches Some(j) ==> j <= s@.len() && byte_len(s@.take(j as int)) == offset
            && is_boundary(s@, offset as int) && boundary_index(s@, offset as int) == j,
        found is None ==> !is_boundary(s@, offset as int),
{
    let mut j: usize = 0;
    let mut b: usize = 0;
    proof {
        assert(s@.take(0) =~= Seq::<char>::empty());
    }
    while j < s.len() && b < offset
        invariant
            j <= s.len(),
            byte_len(s@) <= usize::MAX,
            b == byte_len(s@.take(j as int)),
            forall|m: int| 0 <= m < j ==> byte_len(#[trigger] s@.take(m)) < offset,
        decreases s.len() - j,
    {
        proof {
            lemma_byte_len_subrange(s@, j as int, j + 1);
            assert(s@.subrange(j as int, j + 1) =~= seq![s@[j as int]]);
            lemma_byte_len_single(s@[j as int]);
        }
        b = b + char_len_utf8(s[j]);
        j += 1;
    }
    if b == offset {
        proof {
            lemma_boundary_unique(s@, j as int);
        }
        Some(j)
    } else {
        proof {
            assert forall|m: int| 0 <= m <= s@.len() implies byte_len(#[trigger] s@.take(m))
                != offset by {
                if m >= j {
                    if m > j {
                        crate::text::lemma_byte_len_take_monotone(s@, j as int, m);
                    }
                }
            }
        }
        None
    }
}

impl SourceMapView {
    /// Index of the first line from `from` on that holds the byte `offset`,
    /// or of the last line.
    pub open spec fn line_of_byte(&self, offset: usize, from: int) -> int
        decreases self.lines.len() - from,
    {
        if from >= self.lines.len() - 1 {
            self.lines.len() - 1
        } else if from >= 0 && self.lines[from].start_byte <= offset < self.lines[from].end_byte {
            from
        } else {
            self.line_of_byte(offset, from + 1)
        }
    }

    /// The line that an offset is found on is one of the lines.
    pub proof fn lemma_line_of_byte(&self, offset: usize, from: int)
        requires
            self.lines.len() >= 1,
            0 <= from,
        ensures
            0 <= self.line_of_byte(offset, from) < self.lines.len(),
            from < self.lines.len() ==> from <= self.line_of_byte(offset, from),
        decreases self.lines.len() - from,
    {
        if from >= self.lines.len() - 1 {
        } else if self.lines[from].start_byte <= offset < self.lines[from].end_byte {
        } else {
            self.lemma_line_of_byte(offset, from + 1);
        }
    }

    /// The position of the byte `offset`: the line that holds it, the
    /// characters of that line before it and the columns they take. An
    /// offset within or after the line break counts one character more than
    /// the line has.
    pub open spec fn loc_at(&self, offset: usize) -> Loc {
        let l = self.lines[self.line_of_byte(offset, 0)];
        let rel: int = if offset >= l.start_byte {
            offset - l.start_byte
        } else {
            0
        };
        let text_bytes = byte_len(l.line) as int;
        let k = if rel < text_bytes {
            rel
        } else {
            text_bytes
        };
        let c = chars_within(l.line, k);
        Loc {
            line: l.line_index,
            char: saturate(
                c + if rel > text_bytes {
                    1int
                } else {
                    0int
                },
            ),
            display: saturate(text_width(l.line.take(c as int)) as int),
            byte: offset,
        }
    }

    /// The positions of the two ends of `span`. Where the span ends in
    /// another line than it starts in, and within or after that line's line
    /// break, the end lies one character and one column further right.
    pub open spec fn locations_of(&self, span: Span) -> (Loc, Loc) {
        let start = self.loc_at(span.start);
        if span.start == span.end {
            (start, start)
        } else {
            let end = self.loc_at(span.end);
            let info = self.lines[self.line_of_byte(span.end, 0)];
            if start.line != end.line && end.byte > info.end_byte - info.end_line_size {
                (
                    start,
                    Loc {
                        line: end.line,
                        char: end.char.saturating_add(1),
                        display: end.display.saturating_add(1),
                        byte: end.byte,
                    },
                )
            } else {
                (start, end)
            }
        }
    }

    /// The text of the bytes `span`, where both ends lie between two
    /// characters of the source.
    pub open spec fn snippet_of(&self, span: Span) -> Option<Seq<char>> {
        if span.start <= span.end && is_boundary(self.source, span.start as int) && is_boundary(
            self.source,
            span.end as int,
        ) {
            Some(
                self.source.subrange(
                    boundary_index(self.source, span.start as int),
                    boundary_index(self.source, span.end as int),
                ),
            )
        } else {
            None
        }
    }

    /// The lines from `k` on that `span` touches, up to the first line
    /// that starts after the span's end.
    pub open spec fn touching(&self, span: Span, k: int) -> Seq<usize>
        decreases self.lines.len() - k,
    {
        if k >= self.lines.len() || k < 0 {
            Seq::empty()
        } else if span.start >= self.lines[k].end_byte {
            self.touching(span, k + 1)
        } else if span.end < self.lines[k].start_byte {
            Seq::empty()
        } else {
            seq![k as usize] + self.touching(span, k + 1)
        }
    }

    /// The lines that `span` touches; the last line where it touches none.
    pub open spec fn lines_of_span(&self, span: Span) -> Seq<usize> {
        if self.touching(span, 0).len() == 0 {
            seq![(self.lines.len() - 1) as usize]
        } else {
            self.touching(span, 0)
        }
    }

    /// The lines that a span touches are lines of the map.
    pub proof fn lemma_touching(&self, span: Span, k: int)
        requires
            0 <= k,
            self.lines.len() <= usize::MAX,
        ensures
            forall|m: int|
                0 <= m < self.touching(span, k).len() ==> k <= (#[trigger] self.touching(span, k)[m])
                    < self.lines.len(),
        decreases self.lines.len() - k,
    {
        if k < self.lines.len() {
            self.lemma_touching(span, k + 1);
            let rest = self.touching(span, k + 1);
            let all = self.touching(span, k);
            assert forall|m: int| 0 <= m < all.len() implies k <= (#[trigger] all[m])
                < self.lines.len() by {
                if span.start >= self.lines[k].end_byte {
                    assert(all[m] == rest[m]);
                    assert(k + 1 <= rest[m] < self.lines.len());
                } else if span.end < self.lines[k].start_byte {
                } else {
                    if m > 0 {
                        assert(all[m] == rest[m - 1]);
                        assert(k + 1 <= rest[m - 1] < self.lines.len());
                    } else {
                        assert(all[0] == k);
                    }
                }
            }
        }
    }
}

impl SourceMap {
    /// Position in `self.lines` of the line that holds the byte `offset`:
    /// the last line where no line holds it.
    pub fn line_index_of(&self, offset: usize) -> (i: usize)
        requires
            self.lines@.len() >= 1,
        ensures
            i == self@.line_of_byte(offset, 0),
            i < self.lines@.len(),
    {
        let mut i: usize = 0;
        let last = self.lines.len() - 1;
        while i < last
            invariant
                last == self.lines@.len() - 1,
                i <= last,
                self@.line_of_byte(offset, 0) == self@.line_of_byte(offset, i as int),
            decreases last - i,
        {
            if self.lines[i].start_byte <= offset && offset < self.lines[i].end_byte {
                return i;
            }
            i += 1;
        }
        i
    }

    /// The position of the byte `offset`; see [`SourceMapView::loc_at`].
    pub fn location(&self, offset: usize) -> (loc: Loc)
        requires
            self@.wf(),
        ensures
            loc == self@.loc_at(offset),
    {
        let i = self.line_index_of(offset);
        let info = &self.lines[i];
        assert(self@.line_wf(i as int));
        proof {
            lemma_byte_len_subrange(
                self.source@,
                info.start_char as int,
                info.start_char + info.line@.len(),
            );
            lemma_byte_len_subrange(self.source@, 0, info.start_char + info.line@.len());
        }
        let rel = offset.saturating_sub(info.start_byte);
        let text_bytes = info.end_byte - info.end_line_size - info.start_byte;
        let k = if rel < text_bytes {
            rel
        } else {
            text_bytes
        };
        let line = &info.line;
        let mut j: usize = 0;
        let mut used: usize = 0;
        let mut display: usize = 0;
        proof {
            assert(line@.skip(0) =~= line@);
            assert(line@.take(0) =~= Seq::<char>::empty());
        }
        while j < line.len() && char_len_utf8(line[j]) <= k - used
            invariant
                j <= line.len(),
                used <= k,
                k <= usize::MAX,
                chars_within(line@, k as int) == j + chars_within(line@.skip(j as int), k - used),
                display == saturate(text_width(line@.take(j as int)) as int),
            decreases line.len() - j,
        {
            proof {
                assert(line@.skip(j as int)[0] == line@[j as int]);
                assert(line@.skip(j as int).drop_first() =~= line@.skip(j + 1));
                assert(line@.take(j + 1) =~= line@.take(j as int).push(line@[j as int]));
                lemma_text_width_push(line@.take(j as int), line@[j as int]);
            }
            used = used + char_len_utf8(line[j]);
            display = display.saturating_add(char_width(line[j]));
            j += 1;
        }
        proof {
            if j < line.len() {
                assert(line@.skip(j as int)[0] == line@[j as int]);
            }
        }
        let extra: usize = if rel > text_bytes {
            1
        } else {
            0
        };
        Loc { line: info.line_index, char: j.saturating_add(extra), display, byte: offset }
    }

    /// The positions of the two ends of `span`; see [`SourceMapView::locations_of`].
    pub fn span_to_locations(&self, span: Span) -> (locs: (Loc, Loc))
        requires
            self@.wf(),
        ensures
            locs == self@.locations_of(span),
    {
        let start = self.location(span.start);
        if span.start == span.end {
            return (start, start);
        }
        let end = self.location(span.end);
        let i = self.line_index_of(span.end);
        let info = &self.lines[i];
        assert(self@.line_wf(i as int));
        if start.line != end.line && end.byte > info.end_byte - info.end_line_size {
            (
                start,
                Loc {
                    line: end.line,
                    char: end.char.saturating_add(1),
                    display: end.display.saturating_add(1),
                    byte: end.byte,
                },
            )
        } else {
            (start, end)
        }
    }

    /// The text of the bytes `span`, where both ends lie between two characters of the source.
    pub fn span_to_snippet(&self, span: Span) -> (text: Option<Vec<char>>)
        requires
            self@.wf(),
        ensures
            text is Some <==> self@.snippet_of(span) is Some,
            text matches Some(t) ==> Some(t@) == self@.snippet_of(span),
    {
        if span.start > span.end {
            return None;
        }
        let from = match char_index(&self.source, span.start) {
            Some(j) => j,
            None => {
                return None;
            },
        };
        let to = match char_index(&self.source, span.end) {
            Some(j) => j,
            None => {
                return None;
            },
        };
        proof {
            if to < from {
                crate::text::lemma_byte_len_take_monotone(self.source@, to as int, from as int);
            }
        }
        Some(slice_of(&self.source, from, to))
    }

    /// The positions in `self.lines` of the lines that `span` touches, in
    /// order; the last line alone where it touches none.
    pub fn span_to_lines(&self, span: Span) -> (found: Vec<usize>)
        requires
            self.lines@.len() >= 1,
        ensures
            found@ == self@.lines_of_span(span),
            found@.len() >= 1,
            forall|k: int| 0 <= k < found@.len() ==> (#[trigger] found@[k]) < self.lines@.len(),
    {
        let mut found: Vec<usize> = Vec::new();
        let mut i: usize = 0;
        let mut done = false;
        proof {
            assert(found@ + self@.touching(span, 0) =~= self@.touching(span, 0));
        }
        while i < self.lines.len() && !done
            invariant
                i <= self.lines.len(),
                !done ==> found@ + self@.touching(span, i as int) == self@.touching(span, 0),
                done ==> found@ == self@.touching(span, 0),
            decreases self.lines.len() - i,
        {
            let info = &self.lines[i];
            let ghost before = found@;
            let ghost rest = self@.touching(span, i + 1);
            if span.start >= info.end_byte {
            } else if span.end < info.start_byte {
                done = true;
                proof {
                    assert(found@ + Seq::<usize>::empty() =~= found@);
                }
            } else {
                found.push(i);
                proof {
                    assert(found@ + rest =~= before + (seq![i] + rest));
                }
            }
            i += 1;
        }
        proof {
            assert(found@ + Seq::<usize>::empty() =~= found@);
            self@.lemma_touching(span, 0);
        }
        if found.len() == 0 {
            found.push(self.lines.len() - 1);
            assert(found@ =~= seq![(self.lines@.len() - 1) as usize]);
        }
        found
    }
}

impl SourceMapView {
    /// The bytes up to the end of a line and its line break are the bytes of the
    /// characters up to there.
    pub proof fn lemma_line_end(self, i: int)
        requires
            self.wf(),
            0 <= i < self.lines.len(),
        ensures
            ({
                let l = self.lines[i];
                let after = l.start_char + l.line.len();
                &&& l.start_byte + byte_len(l.line) == byte_len(self.source.take(after))
                &&& l.end_byte == byte_len(self.source.take(after + l.end_line_size))
            }),
    {
        let l = self.lines[i];
        let s = self.source;
        let after = l.start_char + l.line.len();
        assert(self.line_wf(i));
        lemma_byte_len_subrange(s, l.start_char as int, after);
        lemma_byte_len_subrange(s, after, after + l.end_line_size);
        let term = s.subrange(after, after + l.end_line_size);
        if l.end_line_size == 1 {
            assert(term =~= seq!['\n']);
            lemma_byte_len_single('\n');
        } else if l.end_line_size == 2 {
            assert(term =~= seq!['\r'] + seq!['\n']);
            lemma_byte_len_concat(seq!['\r'], seq!['\n']);
            lemma_byte_len_single('\r');
            lemma_byte_len_single('\n');
        } else {
            assert(term =~= Seq::<char>::empty());
        }
    }

    /// The line that an offset is found on starts at or before the offset.
    pub proof fn lemma_found_line_starts_before(self, offset: usize, from: int)
        requires
            self.wf(),
            0 <= from < self.lines.len(),
            self.lines[from].start_byte <= offset,
        ensures
            self.lines[self.line_of_byte(offset, from)].start_byte <= offset,
        decreases self.lines.len() - from,
    {
        if from >= self.lines.len() - 1 {
        } else if self.lines[from].start_byte <= offset < self.lines[from].end_byte {
        } else {
            self.lemma_line_end(from);
            assert(self.line_wf(from));
            assert(self.line_wf(from + 1));
            self.lemma_found_line_starts_before(offset, from + 1);
        }
    }

    /// Along a line, columns never go back: of two byte offsets that
    /// resolve to the same line, the later has at least the count of
    /// characters and at least the column of the earlier.
    pub proof fn lemma_columns_grow(self, a: usize, b: usize)
        requires
            a <= b,
            self.line_of_byte(a, 0) == self.line_of_byte(b, 0),
        ensures
            self.loc_at(a).line == self.loc_at(b).line,
            self.loc_at(a).char <= self.loc_at(b).char,
            self.loc_at(a).display <= self.loc_at(b).display,
    {
        let l = self.lines[self.line_of_byte(a, 0)];
        let text_bytes = byte_len(l.line) as int;
        let rel_a: int = if a >= l.start_byte {
            a - l.start_byte
        } else {
            0
        };
        let rel_b: int = if b >= l.start_byte {
            b - l.start_byte
        } else {
            0
        };
        let k_a = if rel_a < text_bytes {
            rel_a
        } else {
            text_bytes
        };
        let k_b = if rel_b < text_bytes {
            rel_b
        } else {
            text_bytes
        };
        lemma_chars_within_monotone(l.line, k_a, k_b);
        crate::text::lemma_text_width_take_monotone(
            l.line,
            chars_within(l.line, k_a) as int,
            chars_within(l.line, k_b) as int,
        );
    }

    /// A position resolves to where it is.
    ///
    /// For every position `k` between two characters of the source,
    /// resolving the byte offset of `k` gives a line that starts at or
    /// before `k`. If `k` lies within the text of that line, the resolved
    /// count of characters is the distance from the start of the line, the
    /// characters of the line before the position are the source from the
    /// start of the line up to `k`, and the resolved column is their width.
    pub proof fn lemma_location_round_trip(self, k: int)
        requires
            self.wf(),
            0 <= k <= self.source.len(),
        ensures
            ({
                let offset = byte_len(self.source.take(k)) as usize;
                let l = self.lines[self.line_of_byte(offset, 0)];
                let loc = self.loc_at(offset);
                &&& loc.byte == offset
                &&& loc.line == l.line_index
                &&& l.start_char <= k
                &&& k <= l.start_char + l.line.len() ==> {
                    &&& loc.char == k - l.start_char
                    &&& l.line.take(loc.char as int) == self.source.subrange(l.start_char as int, k)
                    &&& loc.display == saturate(
                        text_width(self.source.subrange(l.start_char as int, k)) as int,
                    )
                }
            }),
    {
        let s = self.source;
        lemma_byte_len_subrange(s, 0, k);
        let offset = byte_len(s.take(k)) as usize;
        self.lemma_line_of_byte(offset, 0);
        let i = self.line_of_byte(offset, 0);
        let l = self.lines[i];
        assert(self.line_wf(0));
        assert(s.take(0) =~= Seq::<char>::empty());
        self.lemma_found_line_starts_before(offset, 0);
        assert(self.line_wf(i));
        let loc = self.loc_at(offset);
        assert(loc.byte == offset);
        assert(loc.line == l.line_index);
        assert(l.start_byte <= offset);
        if k < l.start_char {
            crate::text::lemma_byte_len_take_monotone(s, k, l.start_char as int);
        }
        assert(l.start_char <= k);
        if k <= l.start_char + l.line.len() {
            let m = k - l.start_char;
            lemma_byte_len_subrange(s, l.start_char as int, k);
            assert(l.line.take(m) =~= s.subrange(l.start_char as int, k));
            assert(l.line.take(l.line.len() as int) =~= l.line);
            crate::text::lemma_byte_len_take_monotone(l.line, m, l.line.len() as int);
            lemma_chars_within_prefix(l.line, m);
            let rel = offset - l.start_byte;
            assert(rel == byte_len(l.line.take(m)));
            assert(rel <= byte_len(l.line));
            assert(chars_within(l.line, rel) == m);
            lemma_byte_len_bounds(s);
            assert(loc.char == m);
            assert(loc.display == saturate(text_width(l.line.take(m)) as int));
        }
    }
}

} // verus!
