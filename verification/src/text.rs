//! Character and string building blocks shared by the lexers and the error
//! messages: decimal rendering of counters, char-sequence conversions.
use vstd::prelude::*;
use vstd::utf8::*;

verus! {

/// The character of a decimal digit `d < 10`.
pub open spec fn digit_char(d: nat) -> char {
    ((d + 48) as u8) as char
}

/// The decimal rendering of `n`, most significant digit first, no sign and
/// no leading zeros (zero renders as `"0"`).
pub open spec fn decimal(n: nat) -> Seq<char>
    decreases n,
{
    if n < 10 {
        seq![digit_char(n)]
    } else {
        decimal(n / 10).push(digit_char(n % 10))
    }
}

/// Appends one character to a string (`String::push`).
#[verifier::external_body]
pub(crate) fn push_char(s: &mut String, c: char)
    ensures
        final(s)@ == old(s)@.push(c),
{
    s.push(c);
}

/// The decimal rendering of `n` as a new string.
pub fn usize_to_decimal(n: usize) -> (s: String)
    ensures
        s@ == decimal(n as nat),
    decreases n,
{
    let d: u8 = (n % 10) as u8;
    let c: char = (d + 48u8) as char;
    if n < 10 {
        let mut s = String::new();
        push_char(&mut s, c);
        s
    } else {
        let mut s = usize_to_decimal(n / 10);
        push_char(&mut s, c);
        s
    }
}

/// Appends the decimal rendering of `n` to `s`.
pub fn push_decimal(s: &mut String, n: usize)
    ensures
        final(s)@ == old(s)@ + decimal(n as nat),
{
    let d = usize_to_decimal(n);
    s.append(d.as_str());
}

/// The characters of a string slice, in order.
pub fn chars_of(s: &str) -> (v: Vec<char>)
    ensures
        v@ == s@,
{
    let mut v: Vec<char> = Vec::new();
    for c in it: s.chars()
        invariant
            v@ == it.seq().take(it.index() as int),
    {
        v.push(c);
    }
    v
}

/// The string made of the characters `v[lo..hi]`.
pub fn string_from_chars(v: &[char], lo: usize, hi: usize) -> (s: String)
    requires
        lo <= hi <= v@.len(),
    ensures
        s@ == v@.subrange(lo as int, hi as int),
{
    let mut s = String::new();
    let mut i = lo;
    while i < hi
        invariant
            lo <= i <= hi <= v@.len(),
            s@ == v@.subrange(lo as int, i as int),
        decreases hi - i,
    {
        push_char(&mut s, v[i]);
        i = i + 1;
        assert(s@ == v@.subrange(lo as int, i as int));
    }
    s
}

/// True when `c` has the Unicode `White_Space` property (PropList.txt):
/// U+0009..U+000D, U+0020, U+0085, U+00A0, U+1680, U+2000..U+200A, U+2028,
/// U+2029, U+202F, U+205F and U+3000.
pub open spec fn unicode_white_space(c: char) -> bool {
    let u = c as u32;
    ||| 0x09 <= u <= 0x0d
    ||| u == 0x20
    ||| u == 0x85
    ||| u == 0xa0
    ||| u == 0x1680
    ||| 0x2000 <= u <= 0x200a
    ||| u == 0x2028
    ||| u == 0x2029
    ||| u == 0x202f
    ||| u == 0x205f
    ||| u == 0x3000
}

/// Whether `c` is Unicode whitespace, as `char::is_whitespace` decides it.
pub fn char_is_whitespace(c: char) -> (b: bool)
    ensures
        b == unicode_white_space(c),
{
    let u = c as u32;
    (0x09 <= u && u <= 0x0d) || u == 0x20 || u == 0x85 || u == 0xa0 || u == 0x1680 || (0x2000
        <= u && u <= 0x200a) || u == 0x2028 || u == 0x2029 || u == 0x202f || u == 0x205f || u
        == 0x3000
}

/// Whether a character has the Unicode `Alphabetic` property, as
/// `char::is_alphabetic` decides it from std's Unicode tables.
pub uninterp spec fn alphabetic(c: char) -> bool;

/// Whether a character is alphabetic or numeric in the Unicode sense, as
/// `char::is_alphanumeric` decides it from std's Unicode tables.
pub uninterp spec fn alphanumeric(c: char) -> bool;

/// Whether `c` is an ASCII letter.
pub open spec fn ascii_letter(c: char) -> bool {
    ('a' <= c && c <= 'z') || ('A' <= c && c <= 'Z')
}

/// Whether `c` is an ASCII digit.
pub open spec fn ascii_digit(c: char) -> bool {
    '0' <= c && c <= '9'
}

/// `char::is_alphabetic`; its result is named `alphabetic`. Below U+0080
/// the Unicode `Alphabetic` property holds of exactly the ASCII letters,
/// which is all that is claimed of it there.
#[verifier::external_body]
pub(crate) fn char_is_alphabetic(c: char) -> (b: bool)
    ensures
        b == alphabetic(c),
        (c as u32) < 0x80 ==> (b <==> ascii_letter(c)),
{
    c.is_alphabetic()
}

/// `char::is_alphanumeric` (alphabetic or numeric); its result is named
/// `alphanumeric`. Below U+0080 it holds of exactly the ASCII letters and
/// digits.
#[verifier::external_body]
pub(crate) fn char_is_alphanumeric(c: char) -> (b: bool)
    ensures
        b == alphanumeric(c),
        (c as u32) < 0x80 ==> (b <==> ascii_letter(c) || ascii_digit(c)),
{
    c.is_alphanumeric()
}

/// The text that `{:?}` prints for a string slice: the string in double
/// quotes with std's escapes applied.
pub uninterp spec fn str_debug(s: Seq<char>) -> Seq<char>;

/// Formats a string slice with `{:?}` (`<str as Debug>::fmt`); its result is
/// named `str_debug`, and nothing more is claimed of it.
#[verifier::external_body]
pub(crate) fn debug_str(s: &str) -> (r: String)
    ensures
        r@ == str_debug(s@),
{
    format!("{:?}", s)
}

/// Whether `v[lo..hi]` spells `w`.
pub fn chars_eq_str(v: &[char], lo: usize, hi: usize, w: &str) -> (b: bool)
    requires
        lo <= hi <= v@.len(),
    ensures
        b == (v@.subrange(lo as int, hi as int) == w@),
{
    let wc = chars_of(w);
    if hi - lo != wc.len() {
        proof {
            assert(v@.subrange(lo as int, hi as int).len() != w@.len());
        }
        return false;
    }
    let mut k: usize = 0;
    while k < wc.len()
        invariant
            lo <= hi <= v@.len(),
            hi - lo == wc@.len(),
            wc@ == w@,
            0 <= k <= wc@.len(),
            forall|m: int| 0 <= m < k ==> v@[lo + m] == wc@[m],
        decreases wc@.len() - k,
    {
        if v[lo + k] != wc[k] {
            proof {
                assert(v@.subrange(lo as int, hi as int)[k as int] != w@[k as int]);
            }
            return false;
        }
        k = k + 1;
    }
    proof {
        assert(v@.subrange(lo as int, hi as int) =~= w@);
    }
    true
}

/// Whether `w` occurs in `v` at position `i`.
pub open spec fn occurs_at(v: Seq<char>, i: int, w: Seq<char>) -> bool {
    0 <= i && i + w.len() <= v.len() && v.subrange(i, i + w.len()) == w
}

/// The number of characters of `w`.
pub fn str_char_len(w: &str) -> (n: usize)
    ensures
        n == w@.len(),
{
    chars_of(w).len()
}

/// Whether `w` occurs in `v` at position `i`.
pub fn chars_occur_at(v: &[char], i: usize, w: &str) -> (b: bool)
    requires
        i <= v@.len(),
    ensures
        b == occurs_at(v@, i as int, w@),
{
    let n = str_char_len(w);
    if n > v.len() - i {
        return false;
    }
    chars_eq_str(v, i, i + n, w)
}

/// In valid UTF-8, the position after an ASCII byte that starts a character
/// also starts one (or is the end).
pub proof fn lemma_ascii_next_boundary(b: Seq<u8>, i: int)
    requires
        valid_utf8(b),
        is_char_boundary(b, i),
        0 <= i < b.len(),
        b[i] < 0x80,
    ensures
        is_char_boundary(b, i + 1),
    decreases b.len(),
{
    reveal_with_fuel(is_char_boundary, 2);
    if i > 0 {
        let k = length_of_first_scalar(b);
        let p = pop_first_scalar(b);
        assert(p[i - k] == b[i]);
        lemma_ascii_next_boundary(p, i - k);
    }
}

/// In valid UTF-8, the end and every position holding an ASCII byte start
/// a character.
pub proof fn lemma_ascii_boundary(b: Seq<u8>, i: int)
    requires
        valid_utf8(b),
        0 <= i <= b.len(),
        i == b.len() || b[i] < 0x80,
    ensures
        is_char_boundary(b, i),
{
    is_char_boundary_start_end_of_seq(b);
    if i < b.len() {
        is_char_boundary_iff_not_is_continuation_byte(b, i);
    }
}

/// A character boundary of `b` before a boundary `e` is a boundary of the
/// prefix `b[..e]`.
pub proof fn lemma_boundary_in_prefix(b: Seq<u8>, s: int, e: int)
    requires
        valid_utf8(b),
        0 <= s <= e <= b.len(),
        is_char_boundary(b, s),
        is_char_boundary(b, e),
    ensures
        valid_utf8(b.subrange(0, e)),
        is_char_boundary(b.subrange(0, e), s),
{
    valid_utf8_split(b, e);
    let p = b.subrange(0, e);
    is_char_boundary_start_end_of_seq(p);
    if s < e {
        is_char_boundary_iff_not_is_continuation_byte(b, s);
        assert(p[s] == b[s]);
        is_char_boundary_iff_not_is_continuation_byte(p, s);
    } else {
        assert(p.len() == e);
    }
}

} // verus!
