//! Character-level text operations shared by the parsers and the serializers.
//!
//! The operations on text work on slices of `char`s and are specified over
//! the corresponding `Seq<char>`; the conversions between strings, bytes and
//! characters stand beside them.

use vstd::prelude::*;
use vstd::string::*;

verus! {

/// The code points that carry the Unicode `White_Space` property.
pub open spec fn is_white_space(c: char) -> bool {
    let u = c as u32;
    ||| 0x09 <= u <= 0x0d
    ||| u == 0x20
    ||| u == 0x85
    ||| u == 0xa0
    ||| u == 0x1680
    ||| 0x2000 <= u <= 0x200a
    ||| u == 0x2028
    ||| u == 0x2029
    ||| u == 0x202f
    ||| u == 0x205f
    ||| u == 0x3000
}

/// The text without its leading white space.
pub open spec fn trim_start_of(s: Seq<char>) -> Seq<char>
    decreases s.len(),
{
    if s.len() > 0 && is_white_space(s[0]) {
        trim_start_of(s.drop_first())
    } else {
        s
    }
}

/// The text without its trailing white space.
pub open spec fn trim_end_of(s: Seq<char>) -> Seq<char>
    decreases s.len(),
{
    if s.len() > 0 && is_white_space(s.last()) {
        trim_end_of(s.drop_last())
    } else {
        s
    }
}

/// The text without white space at either end.
pub open spec fn trim_of(s: Seq<char>) -> Seq<char> {
    trim_end_of(trim_start_of(s))
}

/// The index of the first occurrence of `c` in `s`, or the length of `s`
/// where there is none.
pub open spec fn position_of(s: Seq<char>, c: char) -> nat
    decreases s.len(),
{
    if s.len() == 0 || s[0] == c {
        0
    } else {
        1 + position_of(s.drop_first(), c)
    }
}

/// The index of the first place where `a` is directly followed by `b`, or the
/// length of `s` where there is none.
pub open spec fn pair_position_of(s: Seq<char>, a: char, b: char) -> nat
    decreases s.len(),
{
    if s.len() == 0 || (s.len() >= 2 && s[0] == a && s[1] == b) {
        0
    } else {
        1 + pair_position_of(s.drop_first(), a, b)
    }
}

/// A line without the carriage return that preceded its line feed.
pub open spec fn strip_carriage_return(line: Seq<char>) -> Seq<char> {
    if line.len() > 0 && line.last() == '\r' {
        line.drop_last()
    } else {
        line
    }
}

/// The lines of a text. A line ends at a line feed or at a carriage return
/// directly followed by a line feed, neither of which belongs to the line; the
/// last line needs no line ending, and an empty text has no lines.
pub open spec fn lines_of(s: Seq<char>) -> Seq<Seq<char>>
    decreases s.len(),
{
    let n = position_of(s, '\n') as int;
    if s.len() == 0 {
        Seq::empty()
    } else if n >= s.len() {
        seq![s]
    } else {
        seq![strip_carriage_return(s.take(n))] + lines_of(s.skip(n + 1))
    }
}

/// The number of characters before the first white space in `s`.
pub open spec fn word_len(s: Seq<char>) -> nat
    decreases s.len(),
{
    if s.len() == 0 || is_white_space(s[0]) {
        0
    } else {
        1 + word_len(s.drop_first())
    }
}

/// The maximal runs of characters other than white space, in order.
pub open spec fn words_of(s: Seq<char>) -> Seq<Seq<char>>
    decreases s.len(),
{
    let n = word_len(s) as int;
    if s.len() == 0 {
        Seq::empty()
    } else if is_white_space(s[0]) {
        words_of(s.drop_first())
    } else if n >= s.len() {
        seq![s]
    } else {
        seq![s.take(n)] + words_of(s.skip(n))
    }
}

/// ASCII upper-case letters mapped to lower case, every other character kept.
pub open spec fn ascii_lower(c: char) -> char {
    if 'A' <= c <= 'Z' {
        ((c as u8) + 32) as char
    } else {
        c
    }
}

/// Equality of two texts up to the case of their ASCII letters.
pub open spec fn eq_ignoring_ascii_case(a: Seq<char>, b: Seq<char>) -> bool {
    &&& a.len() == b.len()
    &&& forall|i: int| 0 <= i < a.len() ==> ascii_lower(#[trigger] a[i]) == ascii_lower(b[i])
}

/// The decimal digit for a value below ten.
pub open spec fn digit_of(d: nat) -> char {
    (('0' as u8) + d as u8) as char
}

/// The decimal representation of a number, without leading zeros.
pub open spec fn decimal_of(n: nat) -> Seq<char>
    decreases n,
{
    if n < 10 {
        seq![digit_of(n)]
    } else {
        decimal_of(n / 10).push(digit_of(n % 10))
    }
}

/// The texts that a sequence of slices stands for.
pub open spec fn texts_of(parts: Seq<&[char]>) -> Seq<Seq<char>> {
    parts.map_values(|p: &[char]| p@)
}

/// Tells whether a character is Unicode white space.
pub fn is_whitespace(c: char) -> (b: bool)
    ensures
        b == is_white_space(c),
{
    let u: u32 = c as u32;
    (0x09 <= u && u <= 0x0d) || u == 0x20 || u == 0x85 || u == 0xa0 || u == 0x1680 || (0x2000 <= u
        && u <= 0x200a) || u == 0x2028 || u == 0x2029 || u == 0x202f || u == 0x205f || u == 0x3000
}

/// Removes the white space at both ends of a text.
pub fn trim(s: &[char]) -> (out: &[char])
    ensures
        out@ == trim_of(s@),
{
    let mut from: usize = 0;
    assert(s@.skip(0) =~= s@);
    while from < s.len() && is_whitespace(s[from])
        invariant
            from <= s.len(),
            trim_start_of(s@) == trim_start_of(s@.skip(from as int)),
        decreases s.len() - from,
    {
        assert(s@.skip(from as int).drop_first() =~= s@.skip(from + 1));
        from += 1;
    }
    let mut to: usize = s.len();
    while from < to && is_whitespace(s[to - 1])
        invariant
            from <= to <= s.len(),
            trim_start_of(s@) == s@.skip(from as int),
            trim_of(s@) == trim_end_of(s@.subrange(from as int, to as int)),
        decreases to - from,
    {
        assert(s@.subrange(from as int, to as int).drop_last() =~= s@.subrange(
            from as int,
            to - 1,
        ));
        to -= 1;
    }
    &s[from..to]
}

/// Finds the first occurrence of `c`; the length of `s` stands for none.
pub fn find(s: &[char], c: char) -> (n: usize)
    ensures
        n == position_of(s@, c),
        n <= s@.len(),
        n < s@.len() ==> s@[n as int] == c,
{
    let mut i: usize = 0;
    assert(s@.skip(0) =~= s@);
    while i < s.len() && s[i] != c
        invariant
            i <= s.len(),
            position_of(s@, c) == i + position_of(s@.skip(i as int), c),
        decreases s.len() - i,
    {
        assert(s@.skip(i as int).drop_first() =~= s@.skip(i + 1));
        i += 1;
    }
    i
}

/// Finds the first place where `a` is directly followed by `b`; the length
/// of `s` stands for none.
pub fn find_pair(s: &[char], a: char, b: char) -> (n: usize)
    ensures
        n == pair_position_of(s@, a, b),
        n <= s@.len(),
        n < s@.len() ==> n + 2 <= s@.len() && s@[n as int] == a && s@[n + 1] == b,
{
    let mut i: usize = 0;
    assert(s@.skip(0) =~= s@);
    while i < s.len() && !(s.len() - i >= 2 && s[i] == a && s[i + 1] == b)
        invariant
            i <= s.len(),
            pair_position_of(s@, a, b) == i + pair_position_of(s@.skip(i as int), a, b),
        decreases s.len() - i,
    {
        assert(s@.skip(i as int).drop_first() =~= s@.skip(i + 1));
        i += 1;
    }
    i
}

/// Splits a text into its lines.
pub fn lines(s: &[char]) -> (out: Vec<&[char]>)
    ensures
        texts_of(out@) == lines_of(s@),
{
    let mut out: Vec<&[char]> = Vec::new();
    let mut pos: usize = 0;
    assert(s@.skip(0) =~= s@);
    while pos < s.len()
        invariant
            pos <= s.len(),
            lines_of(s@) == texts_of(out@) + lines_of(s@.skip(pos as int)),
        decreases s.len() - pos,
    {
        let rest = &s[pos..s.len()];
        let n = find(rest, '\n');
        if n >= rest.len() {
            out.push(rest);
            pos = s.len();
        } else {
            let line = if n > 0 && rest[n - 1] == '\r' {
                &rest[0..n - 1]
            } else {
                &rest[0..n]
            };
            assert(line@ =~= strip_carriage_return(rest@.take(n as int)));
            out.push(line);
            assert(rest@.skip(n + 1) =~= s@.skip(pos + n + 1));
            pos = pos + n + 1;
        }
    }
    out
}

/// Splits a text at white space into its words.
pub fn split_whitespace(s: &[char]) -> (out: Vec<&[char]>)
    ensures
        texts_of(out@) == words_of(s@),
{
    let mut out: Vec<&[char]> = Vec::new();
    let mut pos: usize = 0;
    assert(s@.skip(0) =~= s@);
    while pos < s.len()
        invariant
            pos <= s.len(),
            words_of(s@) == texts_of(out@) + words_of(s@.skip(pos as int)),
        decreases s.len() - pos,
    {
        if is_whitespace(s[pos]) {
            assert(s@.skip(pos as int).drop_first() =~= s@.skip(pos + 1));
            pos += 1;
        } else {
            let ghost rest = s@.skip(pos as int);
            let mut end: usize = pos;
            while end < s.len() && !is_whitespace(s[end])
                invariant
                    pos <= end <= s.len(),
                    word_len(s@.skip(pos as int)) == (end - pos) + word_len(s@.skip(end as int)),
                decreases s.len() - end,
            {
                assert(s@.skip(end as int).drop_first() =~= s@.skip(end + 1));
                end += 1;
            }
            let word = &s[pos..end];
            assert(word@ =~= rest.take(end - pos));
            assert(rest.skip(end - pos) =~= s@.skip(end as int));
            out.push(word);
            pos = end;
        }
    }
    out
}

/// Maps an ASCII upper-case letter to lower case and keeps any other
/// character.
pub fn to_ascii_lower(c: char) -> (out: char)
    ensures
        out == ascii_lower(c),
{
    if 'A' <= c && c <= 'Z' {
        ((c as u8) + 32u8) as char
    } else {
        c
    }
}

/// Compares two texts up to the case of their ASCII letters.
pub fn eq_ignore_ascii_case(a: &[char], b: &[char]) -> (same: bool)
    ensures
        same == eq_ignoring_ascii_case(a@, b@),
{
    if a.len() != b.len() {
        return false;
    }
    let mut i: usize = 0;
    while i < a.len()
        invariant
            i <= a.len(),
            a.len() == b.len(),
            forall|j: int| 0 <= j < i ==> ascii_lower(#[trigger] a@[j]) == ascii_lower(b@[j]),
        decreases a.len() - i,
    {
        if to_ascii_lower(a[i]) != to_ascii_lower(b[i]) {
            return false;
        }
        i += 1;
    }
    true
}

/// Compares two strings character by character.
pub fn str_eq(a: &str, b: &str) -> (same: bool)
    ensures
        same == (a@ == b@),
{
    let x = a.as_bytes();
    let y = b.as_bytes();
    proof {
        vstd::utf8::encode_utf8_decode_utf8(a@);
        vstd::utf8::encode_utf8_decode_utf8(b@);
    }
    if x.len() != y.len() {
        return false;
    }
    let mut i: usize = 0;
    while i < x.len()
        invariant
            i <= x.len(),
            x.len() == y.len(),
            x@ == a.spec_bytes(),
            y@ == b.spec_bytes(),
            forall|j: int| 0 <= j < i ==> x@[j] == y@[j],
        decreases x.len() - i,
    {
        if x[i] != y[i] {
            return false;
        }
        i += 1;
    }
    assert(x@ =~= y@);
    true
}

/// What `String::from_utf8_lossy` decodes a byte sequence to: the text that
/// the bytes encode, with U+FFFD in place of every ill-formed part.
pub uninterp spec fn utf8_lossy_of(bytes: Seq<u8>) -> Seq<char>;

/// `String::from_utf8_lossy` decodes bytes as UTF-8 and puts U+FFFD in place
/// of what is ill-formed, so that it never fails; well-formed UTF-8 decodes to
/// the very text that it encodes.
#[verifier::external_body]
pub(crate) fn decode_utf8_lossy(bytes: &[u8]) -> (text: String)
    ensures
        text@ == utf8_lossy_of(bytes@),
        vstd::utf8::valid_utf8(bytes@) ==> text@ == vstd::utf8::decode_utf8(bytes@),
{
    String::from_utf8_lossy(bytes).into_owned()
}

/// `String::push` appends one character to the end of the string.
pub assume_specification[ String::push ](s: &mut String, c: char)
    ensures
        final(s)@ == old(s)@.push(c),
;

/// The characters of a string, in order.
pub fn chars_of(s: &str) -> (out: Vec<char>)
    ensures
        out@ == s@,
{
    let mut out: Vec<char> = Vec::new();
    for c in it: s.chars()
        invariant
            it.seq() == s@,
            out@ == s@.take(it.index() as int),
    {
        out.push(c);
    }
    out
}

/// The string made of the given characters.
pub fn string_of(chars: &[char]) -> (out: String)
    ensures
        out@ == chars@,
{
    let mut out = String::new();
    let mut i: usize = 0;
    while i < chars.len()
        invariant
            i <= chars.len(),
            out@ == chars@.take(i as int),
        decreases chars.len() - i,
    {
        out.push(chars[i]);
        i += 1;
    }
    out
}

/// Appends the decimal representation of `n` to `out`.
pub fn push_decimal(out: &mut String, n: usize)
    ensures
        final(out)@ == old(out)@ + decimal_of(n as nat),
    decreases n,
{
    if n >= 10 {
        push_decimal(out, n / 10);
    }
    let d: u8 = (n % 10) as u8;
    out.push((48u8 + d) as char);
}

/// The decimal representation of `n`.
pub fn decimal(n: usize) -> (out: String)
    ensures
        out@ == decimal_of(n as nat),
{
    let mut out = String::new();
    push_decimal(&mut out, n);
    out
}

} // verus!
