use vstd::prelude::*;
use vstd::string::*;
use vstd::std_specs::iter::IteratorSpec;

verus! {

/// The characters that count as white space: the code points with the
/// Unicode property `White_Space`.
pub open spec fn is_space(c: char) -> bool {
    ||| '\u{9}' <= c <= '\u{D}'
    ||| c == ' '
    ||| c == '\u{85}'
    ||| c == '\u{A0}'
    ||| c == '\u{1680}'
    ||| '\u{2000}' <= c <= '\u{200A}'
    ||| c == '\u{2028}'
    ||| c == '\u{2029}'
    ||| c == '\u{202F}'
    ||| c == '\u{205F}'
    ||| c == '\u{3000}'
}

/// Whether `c` counts as white space.
pub fn is_whitespace(c: char) -> (b: bool)
    ensures
        b == is_space(c),
{
    ('\u{9}' <= c && c <= '\u{D}') || c == ' ' || c == '\u{85}' || c == '\u{A0}' || c
        == '\u{1680}' || ('\u{2000}' <= c && c <= '\u{200A}') || c == '\u{2028}' || c
        == '\u{2029}' || c == '\u{202F}' || c == '\u{205F}' || c == '\u{3000}'
}

/// `text` without its leading white space.
pub open spec fn trim_start(text: Seq<char>) -> Seq<char>
    decreases text.len(),
{
    if text.len() > 0 && is_space(text[0]) {
        trim_start(text.drop_first())
    } else {
        text
    }
}

/// `text` without its trailing white space.
pub open spec fn trim_end(text: Seq<char>) -> Seq<char>
    decreases text.len(),
{
    if text.len() > 0 && is_space(text.last()) {
        trim_end(text.drop_last())
    } else {
        text
    }
}

/// `text` without leading and trailing white space.
pub open spec fn trimmed(text: Seq<char>) -> Seq<char> {
    trim_end(trim_start(text))
}

/// Whether `needle` stands in `text` at position `at`.
pub open spec fn stands_at(text: Seq<char>, at: int, needle: Seq<char>) -> bool {
    0 <= at && at + needle.len() <= text.len() && text.subrange(at, at + needle.len()) == needle
}

/// Whether `needle` occurs somewhere in `text`.
pub open spec fn occurs_in(needle: Seq<char>, text: Seq<char>) -> bool {
    exists|at: int| stands_at(text, at, needle)
}

/// Whether `text` begins with `needle`.
pub open spec fn starts_with(text: Seq<char>, needle: Seq<char>) -> bool {
    stands_at(text, 0, needle)
}

/// Whether `text` ends with `needle`.
pub open spec fn ends_with(text: Seq<char>, needle: Seq<char>) -> bool {
    stands_at(text, text.len() - needle.len(), needle)
}

/// The characters of a string slice, in order.
pub fn to_chars(s: &str) -> (chars: Vec<char>)
    ensures
        chars@ == s@,
{
    broadcast use group_string_axioms;

    let mut chars: Vec<char> = Vec::new();
    for c in rest: s.chars()
        invariant
            rest.seq() == s@,
            chars@ == s@.take(rest.index() as int),
    {
        chars.push(c);
    }
    chars
}

/// Whether `needle` stands in `text` at position `at`, for a position at
/// which it has room.
pub fn matches_at(text: &Vec<char>, at: usize, needle: &Vec<char>) -> (b: bool)
    requires
        at + needle.len() <= text.len(),
    ensures
        b == stands_at(text@, at as int, needle@),
{
    let mut k: usize = 0;
    while k < needle.len()
        invariant
            k <= needle.len(),
            at + needle.len() <= text.len(),
            forall|j: int| 0 <= j < k ==> text@[at + j] == needle@[j],
        decreases needle.len() - k,
    {
        if text[at + k] != needle[k] {
            assert(text@.subrange(at as int, at + needle.len())[k as int] != needle@[k as int]);
            return false;
        }
        k += 1;
    }
    assert(text@.subrange(at as int, at + needle.len()) =~= needle@);
    true
}

/// Whether `needle` occurs somewhere in `text`.
pub fn contains(text: &Vec<char>, needle: &Vec<char>) -> (b: bool)
    ensures
        b == occurs_in(needle@, text@),
{
    if needle.len() > text.len() {
        return false;
    }
    let last: usize = text.len() - needle.len();
    let mut at: usize = 0;
    while at < last
        invariant
            at <= last,
            last == text.len() - needle.len(),
            forall|j: int| 0 <= j < at ==> !stands_at(text@, j, needle@),
        decreases last - at,
    {
        if matches_at(text, at, needle) {
            return true;
        }
        at += 1;
    }
    matches_at(text, last, needle)
}

/// Whether `text` ends with `needle`.
pub fn has_suffix(text: &Vec<char>, needle: &Vec<char>) -> (b: bool)
    ensures
        b == ends_with(text@, needle@),
{
    if needle.len() > text.len() {
        return false;
    }
    matches_at(text, text.len() - needle.len(), needle)
}

/// Whether `text` begins with `needle`.
pub fn has_prefix(text: &Vec<char>, needle: &Vec<char>) -> (b: bool)
    ensures
        b == starts_with(text@, needle@),
{
    if needle.len() > text.len() {
        return false;
    }
    matches_at(text, 0, needle)
}

/// Whether two texts hold the same characters.
pub fn same_text(a: &Vec<char>, b: &Vec<char>) -> (same: bool)
    ensures
        same == (a@ == b@),
{
    if a.len() != b.len() {
        return false;
    }
    let same = matches_at(a, 0, b);
    assert(a@.subrange(0, a@.len() as int) == a@);
    same
}

/// The characters of `text` from position `from` up to, not including, `to`.
pub fn slice(text: &Vec<char>, from: usize, to: usize) -> (part: Vec<char>)
    requires
        from <= to <= text.len(),
    ensures
        part@ == text@.subrange(from as int, to as int),
{
    let mut part: Vec<char> = Vec::new();
    let mut i: usize = from;
    while i < to
        invariant
            from <= i <= to <= text.len(),
            part@ == text@.subrange(from as int, i as int),
        decreases to - i,
    {
        part.push(text[i]);
        assert(part@ == text@.subrange(from as int, i + 1));
        i += 1;
    }
    part
}

/// Where `text` without leading and trailing white space begins and ends.
pub fn trim_range(text: &Vec<char>) -> (range: (usize, usize))
    ensures
        range.0 <= range.1 <= text.len(),
        text@.subrange(range.0 as int, range.1 as int) == trimmed(text@),
{
    let mut a: usize = 0;
    assert(text@.skip(0) == text@);
    while a < text.len() && is_whitespace(text[a])
        invariant
            a <= text.len(),
            trim_start(text@) == trim_start(text@.skip(a as int)),
        decreases text.len() - a,
    {
        assert(text@.skip(a as int).drop_first() == text@.skip(a + 1));
        a += 1;
    }
    assert(text@.skip(a as int) == text@.subrange(a as int, text.len() as int));
    let mut b: usize = text.len();
    while b > a && is_whitespace(text[b - 1])
        invariant
            a <= b <= text.len(),
            trimmed(text@) == trim_end(text@.subrange(a as int, b as int)),
        decreases b,
    {
        assert(text@.subrange(a as int, b as int).drop_last() == text@.subrange(
            a as int,
            b - 1,
        ));
        b -= 1;
    }
    (a, b)
}

/// `text` without leading and trailing white space.
pub fn trim(text: &Vec<char>) -> (part: Vec<char>)
    ensures
        part@ == trimmed(text@),
{
    let (a, b) = trim_range(text);
    slice(text, a, b)
}

/// `text` without leading and trailing white space, as a string of its own.
pub fn trim_str(text: &str) -> (part: String)
    ensures
        part@ == trimmed(text@),
{
    let chars = to_chars(text);
    let (a, b) = trim_range(&chars);
    String::from_str(text.substring_char(a, b))
}

/// Position of the first line feed in `text`, or its length where it holds
/// none.
pub open spec fn first_newline(text: Seq<char>) -> nat
    decreases text.len(),
{
    if text.len() == 0 || text[0] == '\n' {
        0
    } else {
        1 + first_newline(text.drop_first())
    }
}

/// One line without its ending: the line feed is already cut off, and a
/// carriage return before it goes too. A line that no line feed ended keeps
/// its carriage return.
pub open spec fn without_ending(raw: Seq<char>, ended: bool) -> Seq<char> {
    if ended && raw.len() > 0 && raw.last() == '\r' {
        raw.drop_last()
    } else {
        raw
    }
}

/// The lines of `text`. A line ends with a line feed, or with a carriage
/// return and a line feed; the last line needs no ending, and nothing follows
/// the last ending.
pub open spec fn lines_of(text: Seq<char>) -> Seq<Seq<char>>
    decreases text.len(),
{
    if text.len() == 0 {
        Seq::empty()
    } else {
        let n = first_newline(text) as int;
        if n < text.len() {
            seq![without_ending(text.take(n), true)] + lines_of(text.skip(n + 1))
        } else {
            seq![text]
        }
    }
}

/// The first line feed stands where no line feed stands before it.
pub proof fn lemma_first_newline(text: Seq<char>, n: int)
    requires
        0 <= n <= text.len(),
        forall|j: int| 0 <= j < n ==> text[j] != '\n',
        n < text.len() ==> text[n] == '\n',
    ensures
        first_newline(text) == n,
    decreases text.len(),
{
    if text.len() == 0 || text[0] == '\n' {
    } else {
        lemma_first_newline(text.drop_first(), n - 1);
    }
}

/// The lines of `text`, each as its own vector.
pub fn split_lines(text: &Vec<char>) -> (lines: Vec<Vec<char>>)
    ensures
        lines@.len() == lines_of(text@).len(),
        forall|i: int| 0 <= i < lines@.len() ==> (#[trigger] lines@[i])@ == lines_of(text@)[i],
{
    let mut lines: Vec<Vec<char>> = Vec::new();
    let ghost mut done: Seq<Seq<char>> = Seq::empty();
    let mut start: usize = 0;
    let mut i: usize = 0;
    assert(text@.skip(0) == text@);
    assert(done + lines_of(text@) == lines_of(text@));
    while i < text.len()
        invariant
            start <= i <= text.len(),
            forall|j: int| start <= j < i ==> text@[j] != '\n',
            lines_of(text@) == done + lines_of(text@.skip(start as int)),
            lines@.len() == done.len(),
            forall|k: int| 0 <= k < lines@.len() ==> (#[trigger] lines@[k])@ == done[k],
        decreases text.len() - i,
    {
        if text[i] == '\n' {
            let end: usize = if i > start && text[i - 1] == '\r' {
                i - 1
            } else {
                i
            };
            let line = slice(text, start, end);
            proof {
                let rest = text@.skip(start as int);
                lemma_first_newline(rest, i - start);
                assert(rest.take(i - start) == text@.subrange(start as int, i as int));
                assert(rest.skip(i - start + 1) == text@.skip(i + 1));
                assert(line@ == without_ending(rest.take(i - start), true));
                assert(done + (seq![line@] + lines_of(text@.skip(i + 1))) == done.push(line@)
                    + lines_of(text@.skip(i + 1)));
                done = done.push(line@);
            }
            lines.push(line);
            start = i + 1;
        }
        i += 1;
    }
    if start < text.len() {
        let line = slice(text, start, text.len());
        proof {
            let rest = text@.skip(start as int);
            lemma_first_newline(rest, rest.len() as int);
            assert(rest == text@.subrange(start as int, text.len() as int));
            assert(done + seq![line@] == done.push(line@));
            done = done.push(line@);
        }
        lines.push(line);
    } else {
        assert(done + Seq::<Seq<char>>::empty() == done);
    }
    lines
}

/// What follows the last `/` of `path`; all of it where it holds none.
pub open spec fn basename(path: Seq<char>) -> Seq<char>
    decreases path.len(),
{
    if path.len() == 0 {
        path
    } else if path.last() == '/' {
        Seq::empty()
    } else {
        basename(path.drop_last()).push(path.last())
    }
}

/// What follows the last `/` of `path`.
pub fn file_name(path: &Vec<char>) -> (name: Vec<char>)
    ensures
        name@ == basename(path@),
{
    let mut start: usize = 0;
    let mut i: usize = 0;
    while i < path.len()
        invariant
            start <= i <= path.len(),
            basename(path@.take(i as int)) == path@.subrange(start as int, i as int),
        decreases path.len() - i,
    {
        assert(path@.take(i + 1).drop_last() == path@.take(i as int));
        if path[i] == '/' {
            start = i + 1;
            assert(path@.subrange(start as int, start as int) == Seq::<char>::empty());
        } else {
            assert(path@.subrange(start as int, i as int).push(path@[i as int])
                == path@.subrange(start as int, i + 1));
        }
        i += 1;
    }
    assert(path@.take(path.len() as int) == path@);
    slice(path, start, path.len())
}

/// Whether `c` is a decimal digit.
pub open spec fn is_digit(c: char) -> bool {
    '0' <= c <= '9'
}

/// The value of a decimal digit.
pub open spec fn digit_value(c: char) -> nat {
    (c as u32 - '0' as u32) as nat
}

/// The number that a row of decimal digits denotes; zero for none.
pub open spec fn decimal_value(digits: Seq<char>) -> nat
    decreases digits.len(),
{
    if digits.len() == 0 {
        0
    } else {
        decimal_value(digits.drop_last()) * 10 + digit_value(digits.last())
    }
}

/// What remains of `text` after an optional leading `+`.
pub open spec fn unsigned_part(text: Seq<char>) -> Seq<char> {
    if text.len() > 0 && text[0] == '+' {
        text.drop_first()
    } else {
        text
    }
}

/// The number that `text` denotes as an unsigned 32-bit integer: an optional
/// `+`, then one or more decimal digits and nothing else, with a value that
/// fits. Any other text denotes nothing.
pub open spec fn number_of(text: Seq<char>) -> Option<u32> {
    let digits = unsigned_part(text);
    if digits.len() > 0 && (forall|i: int| 0 <= i < digits.len() ==> is_digit(#[trigger] digits[i]))
        && decimal_value(digits) <= u32::MAX {
        Some(decimal_value(digits) as u32)
    } else {
        None
    }
}

/// A row of digits denotes at least what any of its beginnings denotes.
pub proof fn lemma_decimal_value_grows(digits: Seq<char>, k: int)
    requires
        0 <= k <= digits.len(),
    ensures
        decimal_value(digits.take(k)) <= decimal_value(digits),
    decreases digits.len(),
{
    if k == digits.len() {
        assert(digits.take(k) == digits);
    } else {
        lemma_decimal_value_grows(digits.drop_last(), k);
        assert(digits.drop_last().take(k) == digits.take(k));
    }
}

/// Reads `text` as an unsigned 32-bit integer in decimal notation.
pub fn parse_u32(text: &Vec<char>) -> (number: Option<u32>)
    ensures
        number == number_of(text@),
{
    let start: usize = if text.len() > 0 && text[0] == '+' {
        1
    } else {
        0
    };
    let ghost digits = unsigned_part(text@);
    assert(digits == text@.skip(start as int));
    if start == text.len() {
        return None;
    }
    let mut value: u64 = 0;
    let mut i: usize = start;
    assert(digits.take(0) == Seq::<char>::empty());
    while i < text.len()
        invariant
            start <= i <= text.len(),
            start < text.len(),
            digits == text@.skip(start as int),
            digits == unsigned_part(text@),
            forall|j: int| 0 <= j < i - start ==> is_digit(#[trigger] digits[j]),
            value == decimal_value(digits.take(i - start)),
            value <= u32::MAX,
        decreases text.len() - i,
    {
        let c: char = text[i];
        assert(c == digits[i - start]);
        if !('0' <= c && c <= '9') {
            assert(!is_digit(digits[i - start]));
            return None;
        }
        let digit: u64 = (c as u32 - '0' as u32) as u64;
        assert(digits.take(i - start + 1).drop_last() == digits.take(i - start));
        assert(digits.take(i - start + 1).last() == c);
        value = value * 10 + digit;
        assert(value == decimal_value(digits.take(i - start + 1)));
        if value > 0xFFFF_FFFF {
            proof {
                lemma_decimal_value_grows(digits, i - start + 1);
            }
            return None;
        }
        i += 1;
    }
    assert(digits.take(i - start) == digits);
    Some(value as u32)
}

} // verus!
