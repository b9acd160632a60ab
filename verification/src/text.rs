//! Text as sequences of characters: byte lengths, display widths, whitespace,
//! and the small string operations that the layout is built from.

use unicode_width::UnicodeWidthChar;
use vstd::prelude::*;

verus! {

/// Number of columns a tab stop is expanded to.
pub const TAB_WIDTH: usize = 4;

/// The largest `usize` not above `n`: the value a saturating computation of `n` ends in.
pub open spec fn saturate(n: int) -> usize {
    if n > usize::MAX {
        usize::MAX
    } else if n < 0 {
        0usize
    } else {
        n as usize
    }
}

/// Number of bytes that `c` takes in UTF-8.
pub open spec fn utf8_len(c: char) -> nat {
    if (c as u32) < 0x80 {
        1
    } else if (c as u32) < 0x800 {
        2
    } else if (c as u32) < 0x1_0000 {
        3
    } else {
        4
    }
}

/// Number of bytes that the text `s` takes in UTF-8.
pub open spec fn byte_len(s: Seq<char>) -> nat
    decreases s.len(),
{
    if s.len() == 0 {
        0
    } else {
        byte_len(s.drop_last()) + utf8_len(s.last())
    }
}

/// Number of bytes that `c` takes in UTF-8.
pub fn char_len_utf8(c: char) -> (n: usize)
    ensures
        n == utf8_len(c),
        1 <= n <= 4,
{
    let code: u32 = c as u32;
    if code < 0x80 {
        1
    } else if code < 0x800 {
        2
    } else if code < 0x1_0000 {
        3
    } else {
        4
    }
}

/// One more character adds its bytes.
pub proof fn lemma_byte_len_push(s: Seq<char>, c: char)
    ensures
        byte_len(s.push(c)) == byte_len(s) + utf8_len(c),
{
    assert(s.push(c).drop_last() =~= s);
}

/// A text of one character has the bytes of that character.
pub proof fn lemma_byte_len_single(c: char)
    ensures
        byte_len(seq![c]) == utf8_len(c),
{
    reveal_with_fuel(byte_len, 2);
    assert(seq![c].drop_last() =~= Seq::<char>::empty());
}

/// The bytes of two texts in a row are the bytes of both.
pub proof fn lemma_byte_len_concat(a: Seq<char>, b: Seq<char>)
    ensures
        byte_len(a + b) == byte_len(a) + byte_len(b),
    decreases b.len(),
{
    if b.len() == 0 {
        assert(a + b =~= a);
    } else {
        assert((a + b).drop_last() =~= a + b.drop_last());
        lemma_byte_len_concat(a, b.drop_last());
    }
}

/// A character has between one and four bytes.
pub proof fn lemma_byte_len_bounds(s: Seq<char>)
    ensures
        s.len() <= byte_len(s) <= 4 * s.len(),
    decreases s.len(),
{
    if s.len() > 0 {
        lemma_byte_len_bounds(s.drop_last());
    }
}

/// Byte length grows with the prefix taken.
pub proof fn lemma_byte_len_take_monotone(s: Seq<char>, i: int, j: int)
    requires
        0 <= i <= j <= s.len(),
    ensures
        byte_len(s.take(i)) <= byte_len(s.take(j)),
        i < j ==> byte_len(s.take(i)) < byte_len(s.take(j)),
{
    assert(s.take(j) =~= s.take(i) + s.subrange(i, j));
    lemma_byte_len_concat(s.take(i), s.subrange(i, j));
    lemma_byte_len_bounds(s.subrange(i, j));
}

/// What `unicode_width::UnicodeWidthChar::width` returns for `c`.
pub uninterp spec fn unicode_width(c: char) -> Option<usize>;

/// Calls `unicode_width::UnicodeWidthChar::width` on `c`. The result is the
/// width that crate's tables assign to the character, or `None` for a control
/// character. It depends on `c` alone, and no width in those tables is
/// above 3.
#[verifier::external_body]
fn unicode_char_width(c: char) -> (w: Option<usize>)
    ensures
        w == unicode_width(c),
        w matches Some(n) ==> n <= 3,
{
    UnicodeWidthChar::width(c)
}

/// Control and text-flow characters that are always shown one column wide.
pub open spec fn is_narrow_control(c: char) -> bool {
    let n = c as u32;
    n <= 0x08 || (0x0B <= n && n <= 0x1F) || n == 0x7F || (0x202A <= n && n <= 0x202E) || (0x2066
        <= n && n <= 0x2069)
}

/// Display width of one character: a tab is four columns, the control and
/// text-flow characters are one, every other character has its Unicode width,
/// and one column where it has none.
pub open spec fn char_width_spec(c: char) -> nat {
    if c == '\t' {
        4
    } else if is_narrow_control(c) {
        1
    } else {
        match unicode_width(c) {
            Some(w) => w as nat,
            None => 1,
        }
    }
}

/// Display width of a text: the sum of the widths of its characters.
pub open spec fn text_width(s: Seq<char>) -> nat
    decreases s.len(),
{
    if s.len() == 0 {
        0
    } else {
        text_width(s.drop_last()) + char_width_spec(s.last())
    }
}

/// One more character adds its width.
pub proof fn lemma_text_width_push(s: Seq<char>, c: char)
    ensures
        text_width(s.push(c)) == text_width(s) + char_width_spec(c),
{
    assert(s.push(c).drop_last() =~= s);
}

/// The width of two texts in a row is the width of both.
pub proof fn lemma_text_width_concat(a: Seq<char>, b: Seq<char>)
    ensures
        text_width(a + b) == text_width(a) + text_width(b),
    decreases b.len(),
{
    if b.len() == 0 {
        assert(a + b =~= a);
    } else {
        assert((a + b).drop_last() =~= a + b.drop_last());
        lemma_text_width_concat(a, b.drop_last());
    }
}

/// Display width never shrinks when a prefix grows.
pub proof fn lemma_text_width_take_monotone(s: Seq<char>, i: int, j: int)
    requires
        0 <= i <= j <= s.len(),
    ensures
        text_width(s.take(i)) <= text_width(s.take(j)),
{
    assert(s.take(j) =~= s.take(i) + s.subrange(i, j));
    lemma_text_width_concat(s.take(i), s.subrange(i, j));
}

/// Display width of one character; see [`char_width_spec`].
pub fn char_width(ch: char) -> (w: usize)
    ensures
        w == char_width_spec(ch),
        w <= 4,
{
    let code: u32 = ch as u32;
    if ch == '\t' {
        TAB_WIDTH
    } else if code <= 0x08 || (0x0B <= code && code <= 0x1F) || code == 0x7F || (0x202A <= code
        && code <= 0x202E) || (0x2066 <= code && code <= 0x2069) {
        1
    } else {
        match unicode_char_width(ch) {
            Some(w) => w,
            None => 1,
        }
    }
}

/// Display width of `s[..]`, saturating at `usize::MAX`.
pub fn chars_width(s: &Vec<char>) -> (w: usize)
    ensures
        w == saturate(text_width(s@) as int),
{
    let mut w: usize = 0;
    let mut i: usize = 0;
    while i < s.len()
        invariant
            i <= s.len(),
            w == saturate(text_width(s@.take(i as int)) as int),
        decreases s.len() - i,
    {
        proof {
            assert(s@.take(i + 1) =~= s@.take(i as int).push(s@[i as int]));
            lemma_text_width_push(s@.take(i as int), s@[i as int]);
        }
        w = w.saturating_add(char_width(s[i]));
        i += 1;
    }
    proof {
        assert(s@.take(s.len() as int) =~= s@);
    }
    w
}

/// The characters of `s`, in order.
pub fn chars_of(s: &str) -> (out: Vec<char>)
    ensures
        out@ == s@,
{
    let mut out: Vec<char> = Vec::new();
    for c in iter: s.chars()
        invariant
            iter.seq() == s@,
            out@ == iter.seq().take(iter.index()),
    {
        out.push(c);
    }
    out
}

/// Display width of `s`, saturating at `usize::MAX`.
pub fn str_width(s: &str) -> (w: usize)
    ensures
        w == saturate(text_width(s@) as int),
{
    let chars = chars_of(s);
    chars_width(&chars)
}

/// Appends one character with `String::push`, which adds `c` at the end of
/// the string and changes nothing else.
#[verifier::external_body]
fn push_char(s: &mut String, c: char)
    ensures
        final(s)@ == old(s)@.push(c),
{
    s.push(c);
}

/// Appends the characters of `chars` to `out`.
pub fn push_chars(out: &mut String, chars: &Vec<char>)
    ensures
        final(out)@ == old(out)@ + chars@,
{
    let mut i: usize = 0;
    while i < chars.len()
        invariant
            i <= chars.len(),
            out@ == old(out)@ + chars@.take(i as int),
        decreases chars.len() - i,
    {
        proof {
            assert(chars@.take(i + 1) =~= chars@.take(i as int).push(chars@[i as int]));
        }
        push_char(out, chars[i]);
        i += 1;
    }
    proof {
        assert(chars@.take(chars.len() as int) =~= chars@);
    }
}

/// The text of `chars` as a `String`.
pub fn string_of(chars: &Vec<char>) -> (out: String)
    ensures
        out@ == chars@,
{
    let mut out = String::new();
    push_chars(&mut out, chars);
    out
}

/// Characters with the Unicode `White_Space` property.
pub open spec fn is_whitespace_spec(c: char) -> bool {
    let n = c as u32;
    (0x09 <= n && n <= 0x0D) || n == 0x20 || n == 0x85 || n == 0xA0 || n == 0x1680 || (0x2000 <= n
        && n <= 0x200A) || n == 0x2028 || n == 0x2029 || n == 0x202F || n == 0x205F || n
        == 0x3000
}

/// Whether `c` has the Unicode `White_Space` property.
pub fn is_whitespace(c: char) -> (b: bool)
    ensures
        b == is_whitespace_spec(c),
{
    let n: u32 = c as u32;
    (0x09 <= n && n <= 0x0D) || n == 0x20 || n == 0x85 || n == 0xA0 || n == 0x1680 || (0x2000 <= n
        && n <= 0x200A) || n == 0x2028 || n == 0x2029 || n == 0x202F || n == 0x205F || n
        == 0x3000
}

/// Every character of `s` is whitespace.
pub open spec fn all_whitespace(s: Seq<char>) -> bool {
    forall|i: int| 0 <= i < s.len() ==> is_whitespace_spec(#[trigger] s[i])
}

/// Length of the longest prefix of `s` made of whitespace.
pub open spec fn leading_whitespace(s: Seq<char>) -> nat
    decreases s.len(),
{
    if s.len() == 0 || !is_whitespace_spec(s[0]) {
        0
    } else {
        1 + leading_whitespace(s.drop_first())
    }
}

/// Length of the longest suffix of `s` made of whitespace.
pub open spec fn trailing_whitespace(s: Seq<char>) -> nat
    decreases s.len(),
{
    if s.len() == 0 || !is_whitespace_spec(s.last()) {
        0
    } else {
        1 + trailing_whitespace(s.drop_last())
    }
}

/// What the count of leading whitespace says of a text.
pub proof fn lemma_leading_whitespace(s: Seq<char>)
    ensures
        leading_whitespace(s) <= s.len(),
        all_whitespace(s.take(leading_whitespace(s) as int)),
        leading_whitespace(s) < s.len() ==> !is_whitespace_spec(s[leading_whitespace(s) as int]),
        leading_whitespace(s) == s.len() <==> all_whitespace(s),
    decreases s.len(),
{
    if s.len() == 0 || !is_whitespace_spec(s[0]) {
    } else {
        let t = s.drop_first();
        lemma_leading_whitespace(t);
        let n = leading_whitespace(t) as int;
        assert forall|i: int| 0 <= i < n + 1 implies is_whitespace_spec(
            #[trigger] s.take(n + 1)[i],
        ) by {
            if i > 0 {
                assert(s.take(n + 1)[i] == t.take(n)[i - 1]);
            }
        }
        if all_whitespace(s) {
            assert forall|i: int| 0 <= i < t.len() implies is_whitespace_spec(#[trigger] t[i]) by {
                assert(t[i] == s[i + 1]);
            }
        }
        if n == t.len() {
            assert forall|i: int| 0 <= i < s.len() implies is_whitespace_spec(#[trigger] s[i]) by {
                if i > 0 {
                    assert(s[i] == t[i - 1]);
                }
            }
        }
    }
}

/// What the count of trailing whitespace says of a text.
pub proof fn lemma_trailing_whitespace(s: Seq<char>)
    ensures
        trailing_whitespace(s) <= s.len(),
        trailing_whitespace(s) < s.len() ==> !is_whitespace_spec(
            s[s.len() - trailing_whitespace(s) - 1],
        ),
        trailing_whitespace(s) == s.len() <==> all_whitespace(s),
    decreases s.len(),
{
    if s.len() == 0 || !is_whitespace_spec(s.last()) {
    } else {
        let t = s.drop_last();
        lemma_trailing_whitespace(t);
        if all_whitespace(s) {
            assert forall|i: int| 0 <= i < t.len() implies is_whitespace_spec(#[trigger] t[i]) by {
                assert(t[i] == s[i]);
            }
        }
        if trailing_whitespace(t) == t.len() {
            assert forall|i: int| 0 <= i < s.len() implies is_whitespace_spec(#[trigger] s[i]) by {
                if i < t.len() {
                    assert(s[i] == t[i]);
                }
            }
        }
    }
}

/// `s` without its leading whitespace.
pub open spec fn trim_start_spec(s: Seq<char>) -> Seq<char> {
    s.skip(leading_whitespace(s) as int)
}

/// `s` without its leading and trailing whitespace.
pub open spec fn trim_spec(s: Seq<char>) -> Seq<char> {
    let t = trim_start_spec(s);
    t.take(t.len() - trailing_whitespace(t))
}

/// Number of whitespace characters at the start of `s`.
pub fn count_leading_whitespace(s: &Vec<char>) -> (n: usize)
    ensures
        n == leading_whitespace(s@),
        n <= s.len(),
{
    let mut i: usize = 0;
    proof {
        assert(s@.skip(0) =~= s@);
    }
    while i < s.len() && is_whitespace(s[i])
        invariant
            i <= s.len(),
            leading_whitespace(s@) == i + leading_whitespace(s@.skip(i as int)),
        decreases s.len() - i,
    {
        proof {
            assert(s@.skip(i as int)[0] == s@[i as int]);
            assert(s@.skip(i as int).drop_first() =~= s@.skip(i + 1));
        }
        i += 1;
    }
    proof {
        if i < s.len() {
            assert(s@.skip(i as int)[0] == s@[i as int]);
        }
    }
    i
}

/// Number of whitespace characters at the end of `s[..end]`.
pub fn count_trailing_whitespace(s: &Vec<char>, end: usize) -> (n: usize)
    requires
        end <= s.len(),
    ensures
        n == trailing_whitespace(s@.take(end as int)),
        n <= end,
{
    let mut i: usize = end;
    while i > 0 && is_whitespace(s[i - 1])
        invariant
            i <= end <= s.len(),
            trailing_whitespace(s@.take(end as int)) == (end - i) + trailing_whitespace(
                s@.take(i as int),
            ),
        decreases i,
    {
        proof {
            assert(s@.take(i as int).last() == s@[i - 1]);
            assert(s@.take(i as int).drop_last() =~= s@.take(i - 1));
        }
        i -= 1;
    }
    proof {
        if i > 0 {
            assert(s@.take(i as int).last() == s@[i - 1]);
        }
    }
    end - i
}

/// The characters `s[from..to]` as a new vector.
pub fn slice_of(s: &Vec<char>, from: usize, to: usize) -> (out: Vec<char>)
    requires
        from <= to <= s.len(),
    ensures
        out@ == s@.subrange(from as int, to as int),
{
    let mut out: Vec<char> = Vec::new();
    let mut i: usize = from;
    while i < to
        invariant
            from <= i <= to <= s.len(),
            out@ == s@.subrange(from as int, i as int),
        decreases to - i,
    {
        out.push(s[i]);
        proof {
            assert(s@.subrange(from as int, i + 1) =~= s@.subrange(from as int, i as int).push(
                s@[i as int],
            ));
        }
        i += 1;
    }
    out
}

/// `s` without its leading and trailing whitespace.
pub fn trim(s: &Vec<char>) -> (out: Vec<char>)
    ensures
        out@ == trim_spec(s@),
{
    let start = count_leading_whitespace(s);
    let rest = slice_of(s, start, s.len());
    let tail = count_trailing_whitespace(&rest, rest.len());
    proof {
        assert(rest@ =~= trim_start_spec(s@));
        assert(rest@.take(rest.len() as int) =~= rest@);
    }
    slice_of(&rest, 0, rest.len() - tail)
}

/// Whether `s` has only whitespace in it.
pub fn is_blank(s: &Vec<char>) -> (b: bool)
    ensures
        b == all_whitespace(s@),
        b == (trim_spec(s@).len() == 0),
{
    let n = count_leading_whitespace(s);
    proof {
        lemma_leading_whitespace(s@);
        let t = trim_start_spec(s@);
        lemma_trailing_whitespace(t);
        if n < s.len() {
            assert(t[0] == s@[n as int]);
            assert(!all_whitespace(t));
        }
    }
    n == s.len()
}

/// Whether the two texts are the same.
pub fn same_text(a: &Vec<char>, b: &Vec<char>) -> (r: bool)
    ensures
        r == (a@ == b@),
{
    if a.len() != b.len() {
        return false;
    }
    let mut i: usize = 0;
    while i < a.len()
        invariant
            i <= a.len(),
            a.len() == b.len(),
            a@.take(i as int) == b@.take(i as int),
        decreases a.len() - i,
    {
        if a[i] != b[i] {
            return false;
        }
        proof {
            assert(a@.take(i + 1) =~= a@.take(i as int).push(a@[i as int]));
            assert(b@.take(i + 1) =~= b@.take(i as int).push(b@[i as int]));
        }
        i += 1;
    }
    proof {
        assert(a@.take(a.len() as int) =~= a@);
        assert(b@.take(b.len() as int) =~= b@);
    }
    true
}

/// `s` begins with `prefix`.
pub open spec fn starts_with_spec(s: Seq<char>, prefix: Seq<char>) -> bool {
    prefix.len() <= s.len() && s.take(prefix.len() as int) == prefix
}

/// `s` ends with `suffix`.
pub open spec fn ends_with_spec(s: Seq<char>, suffix: Seq<char>) -> bool {
    suffix.len() <= s.len() && s.skip(s.len() - suffix.len()) == suffix
}

/// Whether `s` begins with `prefix`.
pub fn starts_with(s: &Vec<char>, prefix: &Vec<char>) -> (r: bool)
    ensures
        r == starts_with_spec(s@, prefix@),
{
    if prefix.len() > s.len() {
        return false;
    }
    let head = slice_of(s, 0, prefix.len());
    same_text(&head, prefix)
}

/// Whether `s` ends with `suffix`.
pub fn ends_with(s: &Vec<char>, suffix: &Vec<char>) -> (r: bool)
    ensures
        r == ends_with_spec(s@, suffix@),
{
    if suffix.len() > s.len() {
        return false;
    }
    let tail = slice_of(s, s.len() - suffix.len(), s.len());
    same_text(&tail, suffix)
}

/// Number of times `c` occurs in `s`.
pub open spec fn count_char(s: Seq<char>, c: char) -> nat
    decreases s.len(),
{
    if s.len() == 0 {
        0
    } else {
        count_char(s.drop_last(), c) + if s.last() == c {
            1nat
        } else {
            0nat
        }
    }
}

/// Index of the first `c` in `s[from..]`, or `s.len()` where there is none.
pub open spec fn find_char(s: Seq<char>, c: char, from: int) -> int
    decreases s.len() - from,
{
    if from >= s.len() {
        s.len() as int
    } else if from >= 0 && s[from] == c {
        from
    } else {
        find_char(s, c, from + 1)
    }
}

/// What the position of the first occurrence says of a text.
pub proof fn lemma_find_char(s: Seq<char>, c: char, from: int)
    requires
        0 <= from <= s.len(),
    ensures
        from <= find_char(s, c, from) <= s.len(),
        find_char(s, c, from) < s.len() ==> s[find_char(s, c, from)] == c,
        forall|i: int| from <= i < find_char(s, c, from) ==> s[i] != c,
    decreases s.len() - from,
{
    if from < s.len() && s[from] != c {
        lemma_find_char(s, c, from + 1);
    }
}

/// Index of the first `c` in `s[from..]`, or `s.len()` where there is none.
pub fn find_from(s: &Vec<char>, c: char, from: usize) -> (at: usize)
    requires
        from <= s.len(),
    ensures
        at == find_char(s@, c, from as int),
        from <= at <= s.len(),
{
    let mut i: usize = from;
    while i < s.len() && s[i] != c
        invariant
            from <= i <= s.len(),
            find_char(s@, c, from as int) == find_char(s@, c, i as int),
        decreases s.len() - i,
    {
        i += 1;
    }
    i
}

/// Number of bytes of `s`, saturating at `usize::MAX`.
pub fn byte_count(s: &Vec<char>) -> (n: usize)
    ensures
        n == saturate(byte_len(s@) as int),
{
    let mut n: usize = 0;
    let mut i: usize = 0;
    while i < s.len()
        invariant
            i <= s.len(),
            n == saturate(byte_len(s@.take(i as int)) as int),
        decreases s.len() - i,
    {
        proof {
            assert(s@.take(i + 1) =~= s@.take(i as int).push(s@[i as int]));
            lemma_byte_len_push(s@.take(i as int), s@[i as int]);
        }
        n = n.saturating_add(char_len_utf8(s[i]));
        i += 1;
    }
    proof {
        assert(s@.take(s.len() as int) =~= s@);
    }
    n
}

/// What a character is shown as: a tab as four blanks, a control character
/// as its picture, a zero-width joiner as nothing, a character that changes
/// the direction of text as the replacement character, and every other
/// character as itself.
pub open spec fn replacement_of(c: char) -> Seq<char> {
    let n = c as u32;
    if c == '\t' {
        seq![' ', ' ', ' ', ' ']
    } else if n <= 0x1F && n != 0x0A {
        seq![(0x2400 + n) as char]
    } else if n == 0x7F {
        seq!['\u{2421}']
    } else if n == 0x200D {
        Seq::empty()
    } else if (0x202A <= n && n <= 0x202E) || (0x2066 <= n && n <= 0x2069) {
        seq!['\u{FFFD}']
    } else {
        seq![c]
    }
}

/// `s` with every character replaced by what it is shown as.
pub open spec fn normalized(s: Seq<char>) -> Seq<char>
    decreases s.len(),
{
    if s.len() == 0 {
        Seq::empty()
    } else {
        normalized(s.drop_last()) + replacement_of(s.last())
    }
}

/// The picture of the control character with the code `n`.
fn control_picture(n: u32) -> (c: char)
    requires
        n <= 0x1F,
    ensures
        c == (0x2400 + n) as char,
{
    match n {
        0x00 => '\u{2400}',
        0x01 => '\u{2401}',
        0x02 => '\u{2402}',
        0x03 => '\u{2403}',
        0x04 => '\u{2404}',
        0x05 => '\u{2405}',
        0x06 => '\u{2406}',
        0x07 => '\u{2407}',
        0x08 => '\u{2408}',
        0x09 => '\u{2409}',
        0x0A => '\u{240A}',
        0x0B => '\u{240B}',
        0x0C => '\u{240C}',
        0x0D => '\u{240D}',
        0x0E => '\u{240E}',
        0x0F => '\u{240F}',
        0x10 => '\u{2410}',
        0x11 => '\u{2411}',
        0x12 => '\u{2412}',
        0x13 => '\u{2413}',
        0x14 => '\u{2414}',
        0x15 => '\u{2415}',
        0x16 => '\u{2416}',
        0x17 => '\u{2417}',
        0x18 => '\u{2418}',
        0x19 => '\u{2419}',
        0x1A => '\u{241A}',
        0x1B => '\u{241B}',
        0x1C => '\u{241C}',
        0x1D => '\u{241D}',
        0x1E => '\u{241E}',
        _ => '\u{241F}',
    }
}

/// Replaces every character of `s` by what it is shown as, so that the
/// output looks the same on every terminal and underlines stay aligned.
pub fn normalize_whitespace(s: &Vec<char>) -> (out: Vec<char>)
    ensures
        out@ == normalized(s@),
{
    let mut out: Vec<char> = Vec::new();
    let mut i: usize = 0;
    proof {
        assert(s@.take(0) =~= Seq::<char>::empty());
    }
    while i < s.len()
        invariant
            i <= s.len(),
            out@ == normalized(s@.take(i as int)),
        decreases s.len() - i,
    {
        let c = s[i];
        let n: u32 = c as u32;
        let ghost before = out@;
        proof {
            assert(s@.take(i + 1).drop_last() =~= s@.take(i as int));
        }
        if c == '\t' {
            out.push(' ');
            out.push(' ');
            out.push(' ');
            out.push(' ');
            assert(out@ =~= before + seq![' ', ' ', ' ', ' ']);
        } else if n <= 0x1F && n != 0x0A {
            out.push(control_picture(n));
            assert(out@ =~= before + seq![(0x2400 + n) as char]);
        } else if n == 0x7F {
            out.push('\u{2421}');
            assert(out@ =~= before + seq!['\u{2421}']);
        } else if n == 0x200D {
            assert(out@ =~= before + Seq::<char>::empty());
        } else if (0x202A <= n && n <= 0x202E) || (0x2066 <= n && n <= 0x2069) {
            out.push('\u{FFFD}');
            assert(out@ =~= before + seq!['\u{FFFD}']);
        } else {
            out.push(c);
            assert(out@ =~= before + seq![c]);
        }
        i += 1;
    }
    proof {
        assert(s@.take(s.len() as int) =~= s@);
    }
    out
}

/// Columns that `s` takes when a tab counts four and every other character one.
pub open spec fn tab_cols(s: Seq<char>) -> nat
    decreases s.len(),
{
    if s.len() == 0 {
        0
    } else {
        tab_cols(s.drop_last()) + if s.last() == '\t' {
            4nat
        } else {
            1nat
        }
    }
}

/// Columns that `s[from..to]` takes when a tab counts four and every other
/// character one, saturating.
pub fn tab_columns(s: &Vec<char>, from: usize, to: usize) -> (n: usize)
    requires
        from <= to <= s.len(),
    ensures
        n == saturate(tab_cols(s@.subrange(from as int, to as int)) as int),
{
    let mut n: usize = 0;
    let mut i: usize = from;
    proof {
        assert(s@.subrange(from as int, from as int) =~= Seq::<char>::empty());
    }
    while i < to
        invariant
            from <= i <= to <= s.len(),
            n == saturate(tab_cols(s@.subrange(from as int, i as int)) as int),
        decreases to - i,
    {
        proof {
            assert(s@.subrange(from as int, i + 1).drop_last() =~= s@.subrange(
                from as int,
                i as int,
            ));
        }
        n = n.saturating_add(
            if s[i] == '\t' {
                4
            } else {
                1
            },
        );
        i += 1;
    }
    n
}

} // verus!
