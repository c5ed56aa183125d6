//! Character-level helpers shared by the naming, layout and message code.
//!
//! All reasoning is done over `Seq<char>`, the view of `str` and `String`.

use vstd::prelude::*;

verus! {

/// What `str::to_lowercase` returns for a string whose characters are `s`.
pub uninterp spec fn lowercased(s: Seq<char>) -> Seq<char>;

/// What `str::to_uppercase` returns for a string whose characters are `s`.
pub uninterp spec fn uppercased(s: Seq<char>) -> Seq<char>;

/// What `String::from_utf8_lossy` returns for the bytes `bytes`.
pub uninterp spec fn utf8_lossy(bytes: Seq<u8>) -> Seq<char>;

/// `c` in upper case, where it is a letter of ASCII; else `c`.
pub open spec fn ascii_upper_char(c: char) -> char {
    if 'a' <= c <= 'z' {
        ((c as u8) - 32) as u8 as char
    } else {
        c
    }
}

/// `c` in lower case, where it is a letter of ASCII; else `c`.
pub open spec fn ascii_lower_char(c: char) -> char {
    if 'A' <= c <= 'Z' {
        ((c as u8) + 32) as u8 as char
    } else {
        c
    }
}

/// `s` with its letters of ASCII in upper case.
pub open spec fn ascii_upper(s: Seq<char>) -> Seq<char> {
    Seq::new(s.len(), |i: int| ascii_upper_char(s[i]))
}

/// `s` with its letters of ASCII in lower case.
pub open spec fn ascii_lower(s: Seq<char>) -> Seq<char> {
    Seq::new(s.len(), |i: int| ascii_lower_char(s[i]))
}

/// `s` in upper case: its letters of ASCII changed where it is ASCII alone,
/// else what the Unicode mapping gives.
pub open spec fn upper_case(s: Seq<char>) -> Seq<char> {
    if vstd::utf8::is_ascii_chars(s) {
        ascii_upper(s)
    } else {
        uppercased(s)
    }
}

/// `s` in lower case: its letters of ASCII changed where it is ASCII alone,
/// else what the Unicode mapping gives.
pub open spec fn lower_case(s: Seq<char>) -> Seq<char> {
    if vstd::utf8::is_ascii_chars(s) {
        ascii_lower(s)
    } else {
        lowercased(s)
    }
}

/// Calls `String::push`: `c` is appended to `s`.
#[verifier::external_body]
pub(crate) fn push_char(s: &mut String, c: char)
    ensures
        final(s)@ == old(s)@.push(c),
{
    s.push(c)
}

/// Calls `str::to_lowercase`, the Unicode lower-case mapping of `s`. On
/// text of ASCII alone it changes the letters `A` to `Z` and nothing else.
#[verifier::external_body]
fn to_lowercase(s: &str) -> (out: String)
    ensures
        out@ == lowercased(s@),
        vstd::utf8::is_ascii_chars(s@) ==> out@ == ascii_lower(s@),
{
    s.to_lowercase()
}

/// Calls `str::to_uppercase`, the Unicode upper-case mapping of `s`. On
/// text of ASCII alone it changes the letters `a` to `z` and nothing else.
#[verifier::external_body]
fn to_uppercase(s: &str) -> (out: String)
    ensures
        out@ == uppercased(s@),
        vstd::utf8::is_ascii_chars(s@) ==> out@ == ascii_upper(s@),
{
    s.to_uppercase()
}

/// `s` in upper case.
pub fn to_upper(s: &str) -> (out: String)
    ensures
        out@ == upper_case(s@),
{
    to_uppercase(s)
}

/// `s` in lower case.
pub fn to_lower(s: &str) -> (out: String)
    ensures
        out@ == lower_case(s@),
{
    to_lowercase(s)
}

/// Calls `String::from_utf8_lossy`: `bytes` read as UTF-8, each invalid
/// sequence replaced by U+FFFD.
#[verifier::external_body]
pub(crate) fn from_utf8_lossy(bytes: &[u8]) -> (out: String)
    ensures
        out@ == utf8_lossy(bytes@),
{
    String::from_utf8_lossy(bytes).into_owned()
}

/// Whether the two strings hold the same characters.
pub fn same_text(a: &str, b: &str) -> (r: bool)
    ensures
        r == (a@ == b@),
{
    let (left, right) = (a.to_owned(), b.to_owned());
    left == right
}

/// The characters of `text` as a vector, in order.
pub fn chars_of(text: &str) -> (out: Vec<char>)
    ensures
        out@ == text@,
{
    let mut out: Vec<char> = Vec::new();
    for c in it: text.chars()
        invariant
            it.seq() == text@,
            out@ == text@.take(it.index()),
    {
        out.push(c);
    }
    out
}

/// The string made of the characters of `chars`, in order.
pub fn string_of(chars: &Vec<char>) -> (out: String)
    ensures
        out@ == chars@,
{
    let mut out = String::new();
    let mut i: usize = 0;
    while i < chars.len()
        invariant
            i <= chars.len(),
            out@ == chars@.take(i as int),
        decreases chars.len() - i,
    {
        push_char(&mut out, chars[i]);
        i += 1;
    }
    out
}

/// The decimal digit for `d`, for `d` below ten.
pub open spec fn digit_char(d: nat) -> char {
    ((48 + d) as u8) as char
}

/// The decimal representation of `n`, without leading zeros.
pub open spec fn decimal(n: nat) -> Seq<char>
    decreases n,
{
    if n < 10 {
        seq![digit_char(n)]
    } else {
        decimal(n / 10).push(digit_char(n % 10))
    }
}

/// Appends the decimal representation of `n` to `s`.
pub fn push_decimal(s: &mut String, n: u64)
    ensures
        final(s)@ == old(s)@ + decimal(n as nat),
    decreases n,
{
    if n >= 10 {
        push_decimal(s, n / 10);
    }
    let d: u8 = (n % 10) as u8;
    push_char(s, (48u8 + d) as char);
}

/// The position of the first `c` in `s`, or the length of `s` if there is none.
pub open spec fn first_index(s: Seq<char>, c: char) -> nat
    decreases s.len(),
{
    if s.len() == 0 || s[0] == c {
        0
    } else {
        1 + first_index(s.drop_first(), c)
    }
}

/// `first_index` is the one position that holds `c` with no `c` before it.
pub proof fn lemma_first_index(s: Seq<char>, c: char, i: int)
    requires
        0 <= i <= s.len(),
        i < s.len() ==> s[i] == c,
        forall|j: int| 0 <= j < i ==> s[j] != c,
    ensures
        first_index(s, c) == i,
    decreases s.len(),
{
    if s.len() == 0 || s[0] == c {
    } else {
        let rest = s.drop_first();
        assert forall|j: int| 0 <= j < i - 1 implies rest[j] != c by {
            assert(rest[j] == s[j + 1]);
        }
        lemma_first_index(rest, c, i - 1);
    }
}

/// The position of the first `c` in `s`, or the length of `s` if there is none.
pub fn find_char(s: &Vec<char>, from: usize, c: char) -> (i: usize)
    requires
        from <= s.len(),
    ensures
        from <= i <= s.len(),
        i == from + first_index(s@.skip(from as int), c),
{
    let mut i: usize = from;
    while i < s.len() && s[i] != c
        invariant
            from <= i <= s.len(),
            forall|j: int| from <= j < i ==> s@[j] != c,
        decreases s.len() - i,
    {
        i += 1;
    }
    proof {
        let tail = s@.skip(from as int);
        assert forall|j: int| 0 <= j < i - from implies tail[j] != c by {
            assert(tail[j] == s@[from + j]);
        }
        lemma_first_index(tail, c, i - from);
    }
    i
}

/// The part of `name` before its first `.`; all of `name` if it has none.
pub open spec fn base_name(name: Seq<char>) -> Seq<char> {
    name.take(first_index(name, '.') as int)
}

/// The first `n` characters of `s`; all of `s` if it is shorter.
pub open spec fn truncated(s: Seq<char>, n: nat) -> Seq<char> {
    if s.len() <= n {
        s
    } else {
        s.take(n as int)
    }
}

/// Copies `s[from..to]`.
pub fn slice_chars(s: &Vec<char>, from: usize, to: usize) -> (out: Vec<char>)
    requires
        from <= to <= s.len(),
    ensures
        out@ == s@.subrange(from as int, to as int),
{
    let mut out: Vec<char> = Vec::new();
    let mut i: usize = from;
    while i < to
        invariant
            from <= i <= to <= s.len(),
            out@ == s@.subrange(from as int, i as int),
        decreases to - i,
    {
        out.push(s[i]);
        i += 1;
    }
    out
}

/// `line` without one trailing carriage return, if it ends in one.
pub open spec fn strip_cr(line: Seq<char>) -> Seq<char> {
    if line.len() > 0 && line.last() == '\r' {
        line.drop_last()
    } else {
        line
    }
}

/// The lines of `text`. A line ends at a line feed, which is dropped together
/// with a carriage return directly before it. Text after the last line feed is
/// a line of its own, kept as it stands; an empty rest is no line.
pub open spec fn split_lines(text: Seq<char>) -> Seq<Seq<char>>
    decreases text.len(),
{
    if text.len() == 0 {
        Seq::empty()
    } else {
        let i = first_index(text, '\n');
        if i >= text.len() {
            seq![text]
        } else {
            seq![strip_cr(text.take(i as int))] + split_lines(text.skip(i as int + 1))
        }
    }
}

/// The first `limit` lines of `text`, each cut to its first `width` characters.
pub open spec fn clipped_lines(text: Seq<char>, limit: nat, width: nat) -> Seq<Seq<char>> {
    let lines = split_lines(text);
    Seq::new(
        if lines.len() <= limit { lines.len() } else { limit },
        |k: int| truncated(lines[k], width),
    )
}

/// Unfolds `split_lines` once at position `pos`, where the next line starts.
proof fn lemma_split_lines_step(text: Seq<char>, pos: int, end: int)
    requires
        0 <= pos < text.len(),
        pos <= end <= text.len(),
        end == pos + first_index(text.skip(pos), '\n'),
    ensures
        end < text.len() ==> split_lines(text.skip(pos)) == seq![
            strip_cr(text.subrange(pos, end)),
        ] + split_lines(text.skip(end + 1)),
        end == text.len() ==> split_lines(text.skip(pos)) == seq![text.skip(pos)],
{
    let tail = text.skip(pos);
    if end < text.len() {
        assert(tail.take(end - pos) == text.subrange(pos, end));
        assert(tail.skip(end - pos + 1) == text.skip(end + 1));
    }
}

/// Computes `clipped_lines`.
pub fn clip_lines(text: &Vec<char>, limit: usize, width: usize) -> (out: Vec<Vec<char>>)
    ensures
        out@.len() == clipped_lines(text@, limit as nat, width as nat).len(),
        forall|k: int|
            0 <= k < out@.len() ==> #[trigger] out@[k]@ == clipped_lines(
                text@,
                limit as nat,
                width as nat,
            )[k],
{
    let mut out: Vec<Vec<char>> = Vec::new();
    let mut pos: usize = 0;
    let ghost mut done: Seq<Seq<char>> = Seq::empty();
    proof {
        assert(text@.skip(0) == text@);
        assert(done + split_lines(text@) == split_lines(text@));
    }
    while pos < text.len() && out.len() < limit
        invariant
            pos <= text.len(),
            out@.len() <= limit,
            done.len() == out@.len(),
            split_lines(text@) == done + split_lines(text@.skip(pos as int)),
            forall|k: int| 0 <= k < out@.len() ==> #[trigger] out@[k]@ == truncated(done[k], width as nat),
        decreases text.len() - pos,
    {
        let end = find_char(text, pos, '\n');
        proof {
            lemma_split_lines_step(text@, pos as int, end as int);
        }
        let mut stop: usize = end;
        if end < text.len() && end > pos && text[end - 1] == '\r' {
            stop = end - 1;
        }
        let ghost line = if end < text.len() {
            strip_cr(text@.subrange(pos as int, end as int))
        } else {
            text@.skip(pos as int)
        };
        assert(line == text@.subrange(pos as int, stop as int)) by {
            let raw = text@.subrange(pos as int, end as int);
            if end < text.len() {
                if end > pos && text@[end - 1] == '\r' {
                    assert(raw.last() == text@[end - 1]);
                    assert(raw.drop_last() == text@.subrange(pos as int, stop as int));
                } else if end > pos {
                    assert(raw.last() == text@[end - 1]);
                }
            } else {
                assert(text@.skip(pos as int) == raw);
            }
        }
        let cut: usize = if stop - pos > width { pos + width } else { stop };
        let piece = slice_chars(text, pos, cut);
        assert(piece@ == truncated(line, width as nat)) by {
            if stop - pos > width {
                assert(line.take(width as int) == text@.subrange(pos as int, cut as int));
            }
        }
        out.push(piece);
        proof {
            let before = done;
            done = done.push(line);
            if end < text.len() {
                assert(split_lines(text@) == done + split_lines(text@.skip(end + 1))) by {
                    assert(before + (seq![line] + split_lines(text@.skip(end + 1))) == done
                        + split_lines(text@.skip(end + 1)));
                }
            } else {
                assert(text@.skip(text@.len() as int).len() == 0);
                assert(split_lines(text@) == done + split_lines(text@.skip(text@.len() as int))) by {
                    assert(before + seq![line] == done);
                    assert(done + Seq::<Seq<char>>::empty() == done);
                }
            }
        }
        pos = if end < text.len() { end + 1 } else { end };
    }
    proof {
        let lines = split_lines(text@);
        let want = clipped_lines(text@, limit as nat, width as nat);
        if pos >= text.len() {
            assert(text@.skip(pos as int).len() == 0);
            assert(done + Seq::<Seq<char>>::empty() == done);
            assert(lines == done);
        } else {
            assert(lines.len() >= done.len());
        }
        assert(want.len() == out@.len());
        assert forall|k: int| 0 <= k < out@.len() implies #[trigger] out@[k]@ == want[k] by {
            assert(lines[k] == done[k]);
        }
    }
    out
}

} // verus!
