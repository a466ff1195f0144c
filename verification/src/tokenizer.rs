//! Tokenizer for Scheme expressions, after TinyScheme's: the input is read
//! byte by byte, and every token records its kind, its byte range, the line
//! it starts on and its text.
use vstd::prelude::*;
use vstd::utf8::*;
use vstd::string::StringSliceAdditionalSpecFns;
use crate::text::{lemma_ascii_boundary, lemma_ascii_next_boundary, lemma_boundary_in_prefix};

verus! {

/// The kind of a Scheme token.
#[derive(Debug, Clone, Copy, PartialEq, Eq, Structural)]
pub enum TokenType {
    LParen,
    RParen,
    Dot,
    Atom,
    Quote,
    DQuote,
    BQuote,
    Comma,
    AtMark,
    Sharp,
    SharpConst,
    Vec,
    Eof,
}

impl TokenType {
    /// The name of the kind, as displayed.
    pub open spec fn spec_name(self) -> Seq<char> {
        match self {
            TokenType::LParen => "LParen"@,
            TokenType::RParen => "RParen"@,
            TokenType::Dot => "Dot"@,
            TokenType::Atom => "Atom"@,
            TokenType::Quote => "Quote"@,
            TokenType::DQuote => "DQuote"@,
            TokenType::BQuote => "BQuote"@,
            TokenType::Comma => "Comma"@,
            TokenType::AtMark => "AtMark"@,
            TokenType::Sharp => "Sharp"@,
            TokenType::SharpConst => "SharpConst"@,
            TokenType::Vec => "Vec"@,
            TokenType::Eof => "Eof"@,
        }
    }

    /// The name of the kind, as displayed.
    pub fn to_string(&self) -> (s: String)
        ensures
            s@ == self.spec_name(),
    {
        let name = match self {
            TokenType::LParen => "LParen",
            TokenType::RParen => "RParen",
            TokenType::Dot => "Dot",
            TokenType::Atom => "Atom",
            TokenType::Quote => "Quote",
            TokenType::DQuote => "DQuote",
            TokenType::BQuote => "BQuote",
            TokenType::Comma => "Comma",
            TokenType::AtMark => "AtMark",
            TokenType::Sharp => "Sharp",
            TokenType::SharpConst => "SharpConst",
            TokenType::Vec => "Vec",
            TokenType::Eof => "Eof",
        };
        name.to_owned()
    }
}

/// A token: its kind, its byte range `start..end` in the input, the line it
/// starts on (counting from 1) and its text, the input between `start` and
/// `end`.
#[derive(Debug, PartialEq, Eq)]
pub struct Token {
    pub token_type: TokenType,
    pub start: usize,
    pub end: usize,
    pub line: usize,
    pub literal: String,
}

impl Clone for Token {
    fn clone(&self) -> (t: Self)
        ensures
            t == *self,
    {
        Token {
            token_type: self.token_type,
            start: self.start,
            end: self.end,
            line: self.line,
            literal: self.literal.clone(),
        }
    }
}

/// Whitespace bytes: space, tab, newline, carriage return, vertical tab and
/// form feed.
pub open spec fn is_space(c: u8) -> bool {
    c == 32 || c == 9 || c == 10 || c == 13 || c == 11 || c == 12
}

/// Bytes that end an atom: whitespace and `( ) " ' ; , #`.
pub open spec fn is_delimiter(c: u8) -> bool {
    is_space(c) || c == 40 || c == 41 || c == 34 || c == 39 || c == 59 || c == 44 || c == 35
}

/// Bytes that make `#` followed by them a constant: space and `t f o d x b \`.
pub open spec fn is_sharp_const_char(c: u8) -> bool {
    c == 32 || c == 116 || c == 102 || c == 111 || c == 100 || c == 120 || c == 98 || c == 92
}

/// The first position at or after `i` that is not whitespace.
pub open spec fn skip_spaces(b: Seq<u8>, i: int) -> int
    decreases b.len() - i,
{
    if 0 <= i < b.len() && is_space(b[i]) {
        skip_spaces(b, i + 1)
    } else {
        i
    }
}

/// The first position at or after `i` that holds a delimiter, or the end.
pub open spec fn atom_end(b: Seq<u8>, i: int) -> int
    decreases b.len() - i,
{
    if 0 <= i < b.len() && !is_delimiter(b[i]) {
        atom_end(b, i + 1)
    } else {
        i
    }
}

/// The position after the next newline at or after `i`, or the end.
pub open spec fn line_end(b: Seq<u8>, i: int) -> int
    decreases b.len() - i,
{
    if i < 0 || i >= b.len() {
        b.len() as int
    } else if b[i] == 10 {
        i + 1
    } else {
        line_end(b, i + 1)
    }
}

/// The number of newlines among the first `n` bytes.
pub open spec fn count_newlines(b: Seq<u8>, n: int) -> nat
    decreases n,
{
    if n <= 0 {
        0
    } else {
        count_newlines(b, n - 1) + (if n - 1 < b.len() && b[n - 1] == 10 { 1nat } else { 0nat })
    }
}

/// The next token from position `i`: its kind and byte range. Whitespace,
/// `;` comments and `#!` comments (each to the end of its line) are skipped
/// first; at the end of the input the token is `Eof` with an empty range.
pub open spec fn scan(b: Seq<u8>, i: int) -> (TokenType, int, int)
    decreases b.len() - i,
{
    let s = skip_spaces(b, i);
    if i < 0 || s < i || s >= b.len() {
        (TokenType::Eof, s, s)
    } else {
        let c = b[s];
        if c == 40 {
            (TokenType::LParen, s, s + 1)
        } else if c == 41 {
            (TokenType::RParen, s, s + 1)
        } else if c == 39 {
            (TokenType::Quote, s, s + 1)
        } else if c == 96 {
            (TokenType::BQuote, s, s + 1)
        } else if c == 34 {
            (TokenType::DQuote, s, s + 1)
        } else if c == 46 {
            if s + 1 < b.len() && !is_delimiter(b[s + 1]) {
                (TokenType::Atom, s, atom_end(b, s + 1))
            } else {
                (TokenType::Dot, s, s + 1)
            }
        } else if c == 59 {
            proof {
                lemma_line_end(b, s + 1);
            }
            scan(b, line_end(b, s + 1))
        } else if c == 44 {
            if s + 1 < b.len() && b[s + 1] == 64 {
                (TokenType::AtMark, s, s + 2)
            } else {
                (TokenType::Comma, s, s + 1)
            }
        } else if c == 35 {
            if s + 1 < b.len() {
                let d = b[s + 1];
                if d == 40 {
                    (TokenType::Vec, s, s + 2)
                } else if d == 33 {
                    proof {
                        lemma_line_end(b, s + 2);
                    }
                    scan(b, line_end(b, s + 2))
                } else if is_sharp_const_char(d) {
                    if d == 32 {
                        (TokenType::SharpConst, s, s + 2)
                    } else {
                        (TokenType::SharpConst, s, atom_end(b, s + 2))
                    }
                } else {
                    (TokenType::Sharp, s, s + 1)
                }
            } else {
                (TokenType::Sharp, s, s + 1)
            }
        } else {
            (TokenType::Atom, s, atom_end(b, s))
        }
    }
}

/// The kinds and byte ranges of the tokens from position `i` to the end of
/// the input (the final `Eof` excluded).
pub open spec fn spec_tokens(b: Seq<u8>, i: int) -> Seq<(TokenType, int, int)>
    decreases b.len() - i,
{
    let (ty, s, e) = scan(b, i);
    if ty == TokenType::Eof || e <= i || i < 0 || e > b.len() {
        Seq::empty()
    } else {
        seq![(ty, s, e)] + spec_tokens(b, e)
    }
}

/// The text of the bytes `s..e` of the input.
pub open spec fn text_of(b: Seq<u8>, s: int, e: int) -> Seq<char> {
    decode_utf8(b.subrange(s, e))
}

/// Whether `t` is the token of kind `ty` spanning `s..e` of the input `b`.
pub open spec fn token_is(t: Token, b: Seq<u8>, ty: TokenType, s: int, e: int) -> bool {
    &&& t.token_type == ty
    &&& t.start == s
    &&& t.end == e
    &&& t.line == 1 + count_newlines(b, s)
    &&& t.literal@ == text_of(b, s, e)
}

/// Whether the tokens `ts` are those that `spec` describes in the input `b`.
pub open spec fn tokens_are(ts: Seq<Token>, b: Seq<u8>, spec: Seq<(TokenType, int, int)>) -> bool {
    &&& ts.len() == spec.len()
    &&& forall|k: int|
        0 <= k < ts.len() ==> token_is(#[trigger] ts[k], b, spec[k].0, spec[k].1, spec[k].2)
}

pub proof fn lemma_skip_spaces(b: Seq<u8>, i: int)
    requires
        valid_utf8(b),
        0 <= i <= b.len(),
        is_char_boundary(b, i),
    ensures
        i <= skip_spaces(b, i) <= b.len(),
        is_char_boundary(b, skip_spaces(b, i)),
        skip_spaces(b, i) < b.len() ==> !is_space(b[skip_spaces(b, i)]),
    decreases b.len() - i,
{
    if i < b.len() && is_space(b[i]) {
        lemma_ascii_next_boundary(b, i);
        lemma_skip_spaces(b, i + 1);
    }
}

pub proof fn lemma_atom_end(b: Seq<u8>, i: int)
    requires
        valid_utf8(b),
        0 <= i <= b.len(),
    ensures
        i <= atom_end(b, i) <= b.len(),
        is_char_boundary(b, atom_end(b, i)),
    decreases b.len() - i,
{
    if i < b.len() && !is_delimiter(b[i]) {
        lemma_atom_end(b, i + 1);
    } else {
        lemma_ascii_boundary(b, i);
    }
}

pub proof fn lemma_line_end(b: Seq<u8>, i: int)
    requires
        0 <= i,
    ensures
        i <= line_end(b, i) || i > b.len(),
        line_end(b, i) <= b.len(),
        line_end(b, i) > i || line_end(b, i) == b.len(),
        valid_utf8(b) ==> is_char_boundary(b, line_end(b, i)),
    decreases b.len() - i,
{
    if i < b.len() {
        if b[i] == 10 {
            if valid_utf8(b) {
                lemma_ascii_boundary(b, i);
                lemma_ascii_next_boundary(b, i);
            }
        } else {
            lemma_line_end(b, i + 1);
        }
    } else if valid_utf8(b) {
        lemma_ascii_boundary(b, b.len() as int);
    }
}

/// Whether the bytes `i..j` of `b` are only whitespace, `;` comments and
/// `#!` comments, each comment running through the end of its line.
pub open spec fn trivia(b: Seq<u8>, i: int, j: int) -> bool
    decreases j - i,
{
    if i == j {
        true
    } else if !(0 <= i < j <= b.len()) {
        false
    } else if is_space(b[i]) {
        trivia(b, i + 1, j)
    } else if b[i] == 59 {
        let e = line_end(b, i + 1);
        i < e <= j && trivia(b, e, j)
    } else if b[i] == 35 && i + 1 < b.len() && b[i + 1] == 33 {
        let e = line_end(b, i + 2);
        i < e <= j && trivia(b, e, j)
    } else {
        false
    }
}

/// Skipping whitespace never moves back.
proof fn lemma_skip_spaces_ge(b: Seq<u8>, k: int)
    ensures
        k <= skip_spaces(b, k),
    decreases b.len() - k,
{
    if 0 <= k < b.len() && is_space(b[k]) {
        lemma_skip_spaces_ge(b, k + 1);
    }
}

/// Whitespace skipped before trivia is trivia too.
proof fn lemma_skip_spaces_trivia(b: Seq<u8>, i: int, j: int)
    requires
        0 <= i <= skip_spaces(b, i) <= j,
        trivia(b, skip_spaces(b, i), j),
    ensures
        trivia(b, i, j),
    decreases b.len() - i,
{
    if 0 <= i < b.len() && is_space(b[i]) {
        lemma_skip_spaces_ge(b, i + 1);
        lemma_skip_spaces_trivia(b, i + 1, j);
    }
}

/// What `scan` skips before its token is trivia: whitespace and comments.
pub proof fn lemma_scan_gap(b: Seq<u8>, i: int)
    requires
        valid_utf8(b),
        0 <= i <= b.len(),
        is_char_boundary(b, i),
    ensures
        trivia(b, i, scan(b, i).1),
    decreases b.len() - i,
{
    lemma_scan(b, i);
    lemma_skip_spaces(b, i);
    let s1 = skip_spaces(b, i);
    let s = scan(b, i).1;
    if s1 < b.len() {
        let c = b[s1];
        if c == 59 {
            lemma_line_end(b, s1 + 1);
            let e = line_end(b, s1 + 1);
            lemma_scan(b, e);
            lemma_scan_gap(b, e);
            assert(trivia(b, s1, s));
        } else if c == 35 && s1 + 1 < b.len() && b[s1 + 1] == 33 {
            lemma_line_end(b, s1 + 2);
            let e = line_end(b, s1 + 2);
            lemma_scan(b, e);
            lemma_scan_gap(b, e);
            assert(trivia(b, s1, s));
        }
    }
    lemma_skip_spaces_trivia(b, i, s);
}

/// At the end of the input the next token is `Eof`, with an empty range
/// at the end: so once `tokenize` has run, `next_token` gives `Eof`.
pub proof fn lemma_scan_at_end(b: Seq<u8>)
    ensures
        scan(b, b.len() as int) == (TokenType::Eof, b.len() as int, b.len() as int),
{
}

/// The next token starts and ends on character boundaries, within the
/// input, after `i`; only `Eof` is empty.
pub proof fn lemma_scan(b: Seq<u8>, i: int)
    requires
        valid_utf8(b),
        0 <= i <= b.len(),
        is_char_boundary(b, i),
    ensures
        ({
            let (ty, s, e) = scan(b, i);
            &&& i <= s <= e <= b.len()
            &&& is_char_boundary(b, s)
            &&& is_char_boundary(b, e)
            &&& (ty == TokenType::Eof <==> s == e)
            &&& (ty == TokenType::Eof ==> s == b.len())
        }),
    decreases b.len() - i,
{
    lemma_skip_spaces(b, i);
    let s = skip_spaces(b, i);
    if s < b.len() {
        let c = b[s];
        if c < 0x80 {
            lemma_ascii_next_boundary(b, s);
        }
        if s + 1 < b.len() && b[s + 1] < 0x80 && c < 0x80 {
            lemma_ascii_next_boundary(b, s + 1);
        }
        lemma_atom_end(b, s);
        if s + 1 <= b.len() {
            lemma_atom_end(b, s + 1);
        }
        if s + 2 <= b.len() {
            lemma_atom_end(b, s + 2);
        }
        if c == 59 {
            lemma_line_end(b, s + 1);
            lemma_scan(b, line_end(b, s + 1));
        } else if c == 35 && s + 1 < b.len() && b[s + 1] == 33 {
            lemma_line_end(b, s + 2);
            lemma_scan(b, line_end(b, s + 2));
        }
    }
}

pub proof fn lemma_count_newlines(b: Seq<u8>, m: int, n: int)
    requires
        0 <= m <= n,
    ensures
        count_newlines(b, m) <= count_newlines(b, n) <= count_newlines(b, m) + (n - m),
    decreases n - m,
{
    if m < n {
        lemma_count_newlines(b, m, n - 1);
    }
}

/// The tokens from a position lie in order within the input: each one is
/// non-empty and starts at or after that position, and each ends at or
/// before the start of the next.
pub proof fn lemma_spec_tokens_ordered(b: Seq<u8>, i: int)
    requires
        valid_utf8(b),
        0 <= i <= b.len(),
        is_char_boundary(b, i),
    ensures
        forall|k: int|
            0 <= k < spec_tokens(b, i).len() ==> i <= (#[trigger] spec_tokens(b, i)[k]).1
                < spec_tokens(b, i)[k].2 <= b.len() && spec_tokens(b, i)[k].0 != TokenType::Eof,
        forall|k: int, l: int|
            0 <= k < l < spec_tokens(b, i).len() ==> (#[trigger] spec_tokens(b, i)[k]).2
                <= (#[trigger] spec_tokens(b, i)[l]).1,
    decreases b.len() - i,
{
    lemma_scan(b, i);
    let (ty, s, e) = scan(b, i);
    if !(ty == TokenType::Eof || e <= i || i < 0 || e > b.len()) {
        lemma_spec_tokens_ordered(b, e);
        let rest = spec_tokens(b, e);
        let all = spec_tokens(b, i);
        assert(all == seq![(ty, s, e)] + rest);
        assert forall|k: int| 0 <= k < all.len() implies i <= (#[trigger] all[k]).1 < all[k].2
            <= b.len() && all[k].0 != TokenType::Eof by {
            if k > 0 {
                assert(all[k] == rest[k - 1]);
            }
        }
        assert forall|k: int, l: int| 0 <= k < l < all.len() implies (#[trigger] all[k]).2
            <= (#[trigger] all[l]).1 by {
            assert(all[l] == rest[l - 1]);
            if k > 0 {
                assert(all[k] == rest[k - 1]);
            }
        }
    }
}

/// The tokens of a text come in order: each spans a non-empty range of its
/// bytes, each ends at or before the start of the next, and their lines
/// never decrease.
pub proof fn lemma_tokens_in_order(ts: Seq<Token>, text: Seq<char>)
    requires
        tokens_are(ts, encode_utf8(text), spec_tokens(encode_utf8(text), 0)),
    ensures
        forall|k: int|
            0 <= k < ts.len() ==> (#[trigger] ts[k]).start < ts[k].end <= encode_utf8(text).len(),
        forall|k: int, l: int|
            0 <= k < l < ts.len() ==> (#[trigger] ts[k]).end <= (#[trigger] ts[l]).start,
        forall|k: int, l: int|
            0 <= k < l < ts.len() ==> (#[trigger] ts[k]).line <= (#[trigger] ts[l]).line,
{
    let b = encode_utf8(text);
    encode_utf8_valid_utf8(text);
    is_char_boundary_start_end_of_seq(b);
    lemma_spec_tokens_ordered(b, 0);
    let sp = spec_tokens(b, 0);
    assert forall|k: int| 0 <= k < ts.len() implies (#[trigger] ts[k]).start < ts[k].end
        <= b.len() by {
        assert(token_is(ts[k], b, sp[k].0, sp[k].1, sp[k].2));
        assert(0 <= sp[k].1 < sp[k].2 <= b.len());
    }
    assert forall|k: int, l: int| 0 <= k < l < ts.len() implies (#[trigger] ts[k]).end
        <= (#[trigger] ts[l]).start by {
        assert(token_is(ts[k], b, sp[k].0, sp[k].1, sp[k].2));
        assert(token_is(ts[l], b, sp[l].0, sp[l].1, sp[l].2));
        assert(sp[k].2 <= sp[l].1);
    }
    assert forall|k: int, l: int| 0 <= k < l < ts.len() implies (#[trigger] ts[k]).line
        <= (#[trigger] ts[l]).line by {
        assert(token_is(ts[k], b, sp[k].0, sp[k].1, sp[k].2));
        assert(token_is(ts[l], b, sp[l].0, sp[l].1, sp[l].2));
        assert(sp[k].1 < sp[k].2 <= sp[l].1);
        lemma_count_newlines(b, sp[k].1, sp[l].1);
    }
}

/// The bytes of `"()\"';,#"` are the delimiters that are not whitespace.
proof fn lemma_delimiter_bytes(c: u8)
    ensures
        "()\"';,#".spec_bytes().contains(c) == (c == 40 || c == 41 || c == 34 || c == 39 || c
            == 59 || c == 44 || c == 35),
{
    reveal_strlit("()\"';,#");
    let w = "()\"';,#"@;
    assert(is_ascii_chars(w));
    is_ascii_chars_encode_utf8(w);
    let b = "()\"';,#".spec_bytes();
    assert(b =~= seq![40u8, 41u8, 34u8, 39u8, 59u8, 44u8, 35u8]);
    if c == 40 || c == 41 || c == 34 || c == 39 || c == 59 || c == 44 || c == 35 {
        let k: int = if c == 40 { 0 } else if c == 41 { 1 } else if c == 34 { 2 } else if c == 39 {
            3
        } else if c == 59 { 4 } else if c == 44 { 5 } else { 6 };
        assert(b[k] == c);
    }
}

/// The bytes of `" tfodxb\\"` are those that make `#` before them a constant.
proof fn lemma_sharp_const_bytes(c: u8)
    ensures
        " tfodxb\\".spec_bytes().contains(c) == is_sharp_const_char(c),
{
    reveal_strlit(" tfodxb\\");
    let w = " tfodxb\\"@;
    assert(is_ascii_chars(w));
    is_ascii_chars_encode_utf8(w);
    let b = " tfodxb\\".spec_bytes();
    assert(b =~= seq![32u8, 116u8, 102u8, 111u8, 100u8, 120u8, 98u8, 92u8]);
    if is_sharp_const_char(c) {
        let k: int = if c == 32 { 0 } else if c == 116 { 1 } else if c == 102 { 2 } else if c
            == 111 { 3 } else if c == 100 { 4 } else if c == 120 { 5 } else if c == 98 { 6 } else {
            7
        };
        assert(b[k] == c);
    }
}

/// Splits a Scheme source text into tokens.
pub struct Tokenizer<'a> {
    input: &'a str,
    pos: usize,
    line: usize,
}

impl<'a> Tokenizer<'a> {
    #[verifier::type_invariant]
    spec fn well_formed(self) -> bool {
        let b = self.input.spec_bytes();
        &&& b.len() <= isize::MAX
        &&& self.pos <= b.len()
        &&& is_char_boundary(b, self.pos as int)
        &&& self.line == 1 + count_newlines(b, self.pos as int)
    }

    /// The bytes of the input.
    pub closed spec fn spec_input(self) -> Seq<u8> {
        self.input.spec_bytes()
    }

    /// The position of the next unread byte.
    pub closed spec fn spec_position(self) -> int {
        self.pos as int
    }

    /// A tokenizer at the start of `input`.
    pub fn new(input: &'a str) -> (t: Self)
        requires
            input.spec_bytes().len() <= isize::MAX,
        ensures
            t.spec_input() == input.spec_bytes(),
            t.spec_position() == 0,
    {
        proof {
            encode_utf8_valid_utf8(input@);
            is_char_boundary_start_end_of_seq(input.spec_bytes());
        }
        Tokenizer { input, pos: 0, line: 1 }
    }

    /// The byte at the current position, if any.
    fn peek(&self) -> (r: Option<u8>)
        ensures
            r == (if self.spec_position() < self.spec_input().len() {
                Some(self.spec_input()[self.spec_position()])
            } else {
                None::<u8>
            }),
    {
        let b = self.input.as_bytes();
        if self.pos < b.len() {
            Some(b[self.pos])
        } else {
            None
        }
    }

    /// Reads the byte at the current position, an ASCII byte, counting the
    /// lines.
    fn consume(&mut self) -> (r: Option<u8>)
        requires
            old(self).spec_position() < old(self).spec_input().len() ==> old(
                self,
            ).spec_input()[old(self).spec_position()] < 0x80,
        ensures
            final(self).spec_input() == old(self).spec_input(),
            r == (if old(self).spec_position() < old(self).spec_input().len() {
                Some(old(self).spec_input()[old(self).spec_position()])
            } else {
                None::<u8>
            }),
            final(self).spec_position() == (if old(self).spec_position() < old(
                self,
            ).spec_input().len() {
                old(self).spec_position() + 1
            } else {
                old(self).spec_position()
            }),
    {
        proof {
            use_type_invariant(&*self);
            encode_utf8_valid_utf8(self.input@);
        }
        let ghost b = self.input.spec_bytes();
        let bytes = self.input.as_bytes();
        if self.pos < bytes.len() {
            let c = bytes[self.pos];
            proof {
                lemma_ascii_next_boundary(b, self.pos as int);
                lemma_count_newlines(b, 0, self.pos as int);
            }
            let line = if c == 10 {
                self.line + 1
            } else {
                self.line
            };
            *self = Tokenizer { input: self.input, pos: self.pos + 1, line };
            Some(c)
        } else {
            None
        }
    }

    /// Whether `c` is whitespace: space, tab, newline, carriage return,
    /// vertical tab or form feed.
    fn is_whitespace(c: u8) -> (r: bool)
        ensures
            r == is_space(c),
    {
        c == 32 || c == 9 || c == 10 || c == 13 || c == 11 || c == 12
    }

    /// Whether `c` is one of the bytes of `chars`.
    fn is_one_of(chars: &str, c: u8) -> (r: bool)
        ensures
            r == chars.spec_bytes().contains(c),
    {
        let bytes = chars.as_bytes();
        let mut k: usize = 0;
        while k < bytes.len()
            invariant
                k <= bytes@.len(),
                bytes@ == chars.spec_bytes(),
                forall|m: int| 0 <= m < k ==> bytes@[m] != c,
            decreases bytes@.len() - k,
        {
            if bytes[k] == c {
                return true;
            }
            k = k + 1;
        }
        false
    }

    /// Skips whitespace; whether input is left.
    fn skip_whitespace(&mut self) -> (r: bool)
        ensures
            final(self).spec_input() == old(self).spec_input(),
            final(self).spec_position() == skip_spaces(old(self).spec_input(), old(self).spec_position()),
            r == (final(self).spec_position() < final(self).spec_input().len()),
    {
        loop
            invariant
                self.spec_input() == old(self).spec_input(),
                skip_spaces(old(self).spec_input(), old(self).spec_position()) == skip_spaces(
                    self.spec_input(),
                    self.spec_position(),
                ),
            decreases self.spec_input().len() - self.spec_position(),
        {
            proof {
                use_type_invariant(&*self);
            }
            match self.peek() {
                Some(c) => {
                    if Self::is_whitespace(c) {
                        self.consume();
                    } else {
                        return true;
                    }
                },
                None => {
                    return false;
                },
            }
        }
    }

    /// Moves to the first delimiter at or after the current position.
    fn skip_atom(&mut self)
        ensures
            final(self).spec_input() == old(self).spec_input(),
            final(self).spec_position() == atom_end(old(self).spec_input(), old(self).spec_position()),
            old(self).spec_position() <= final(self).spec_position(),
    {
        proof {
            use_type_invariant(&*self);
            encode_utf8_valid_utf8(self.input@);
        }
        let ghost b = self.input.spec_bytes();
        let bytes = self.input.as_bytes();
        let e = atom_end_at(bytes, self.pos);
        proof {
            lemma_atom_end(b, self.pos as int);
            lemma_count_newlines(b, self.pos as int, e as int);
            lemma_count_newlines(b, 0, e as int);
        }
        let line = self.line + count_newlines_between(bytes, self.pos, e);
        *self = Tokenizer { input: self.input, pos: e, line };
    }

    /// Moves past the next newline, or to the end.
    fn skip_line(&mut self)
        ensures
            final(self).spec_input() == old(self).spec_input(),
            final(self).spec_position() == line_end(old(self).spec_input(), old(self).spec_position()),
    {
        proof {
            use_type_invariant(&*self);
            encode_utf8_valid_utf8(self.input@);
        }
        let ghost b = self.input.spec_bytes();
        let bytes = self.input.as_bytes();
        proof {
            lemma_line_end(b, self.pos as int);
        }
        let e = line_end_at(bytes, self.pos);
        proof {
            lemma_count_newlines(b, self.pos as int, e as int);
            lemma_count_newlines(b, 0, e as int);
        }
        let line = self.line + count_newlines_between(bytes, self.pos, e);
        *self = Tokenizer { input: self.input, pos: e, line };
    }

    /// The token of kind `ty` from `start` to the current position, which
    /// started on line `line`.
    fn token_from(&self, ty: TokenType, start: usize, line: usize) -> (t: Token)
        requires
            start <= self.spec_position(),
            is_char_boundary(self.spec_input(), start as int),
            line == 1 + count_newlines(self.spec_input(), start as int),
        ensures
            token_is(t, self.spec_input(), ty, start as int, self.spec_position()),
    {
        proof {
            use_type_invariant(self);
        }
        let literal = slice_text(self.input, start, self.pos);
        Token { token_type: ty, start, end: self.pos, line, literal }
    }

    /// The next token; at the end of the input, an `Eof` token with an empty
    /// range (and every later call gives it again).
    pub fn next_token(&mut self) -> (t: Token)
        ensures
            final(self).spec_input() == old(self).spec_input(),
            ({
                let (ty, s, e) = scan(old(self).spec_input(), old(self).spec_position());
                &&& token_is(t, old(self).spec_input(), ty, s, e)
                &&& final(self).spec_position() == e
            }),
            old(self).spec_position() <= t.start <= t.end <= old(self).spec_input().len(),
            trivia(old(self).spec_input(), old(self).spec_position(), t.start as int),
            t.token_type == TokenType::Eof <==> t.start == t.end,
            t.token_type == TokenType::Eof ==> t.start == old(self).spec_input().len(),
    {
        proof {
            use_type_invariant(&*self);
            encode_utf8_valid_utf8(self.input@);
            lemma_scan(self.spec_input(), self.spec_position());
            lemma_scan_gap(self.spec_input(), self.spec_position());
        }
        let ghost b = self.spec_input();
        let ghost p0 = self.spec_position();
        proof {
            encode_utf8_valid_utf8(self.input@);
        }
        loop
            invariant
                self.spec_input() == b,
                b == old(self).spec_input(),
                p0 == old(self).spec_position(),
                b == encode_utf8(self.input@),
                p0 <= self.spec_position(),
                scan(b, p0) == scan(b, self.spec_position()),
                trivia(b, p0, scan(b, p0).1),
                p0 <= scan(b, p0).1 <= scan(b, p0).2 <= b.len(),
                scan(b, p0).0 == TokenType::Eof <==> scan(b, p0).1 == scan(b, p0).2,
                scan(b, p0).0 == TokenType::Eof ==> scan(b, p0).1 == b.len(),
            decreases b.len() - self.spec_position(),
        {
            proof {
                use_type_invariant(&*self);
                encode_utf8_valid_utf8(self.input@);
                lemma_skip_spaces(b, self.pos as int);
            }
            let more = self.skip_whitespace();
            proof {
                use_type_invariant(&*self);
            }
            let start = self.pos;
            let line = self.line;
            if !more {
                return self.token_from(TokenType::Eof, start, line);
            }
            let c = match self.peek() {
                Some(c) => c,
                None => {
                    return self.token_from(TokenType::Eof, start, line);
                },
            };
            if c == 40 || c == 41 || c == 39 || c == 96 || c == 34 {
                self.consume();
                let ty = if c == 40 {
                    TokenType::LParen
                } else if c == 41 {
                    TokenType::RParen
                } else if c == 39 {
                    TokenType::Quote
                } else if c == 96 {
                    TokenType::BQuote
                } else {
                    TokenType::DQuote
                };
                return self.token_from(ty, start, line);
            } else if c == 46 {
                self.consume();
                match self.peek() {
                    Some(d) => {
                        if Self::is_whitespace(d) || Self::is_one_of("()\"';,#", d) {
                            proof {
                                lemma_delimiter_bytes(d);
                            }
                            return self.token_from(TokenType::Dot, start, line);
                        }
                        proof {
                            lemma_delimiter_bytes(d);
                        }
                        self.skip_atom();
                        return self.token_from(TokenType::Atom, start, line);
                    },
                    None => {
                        return self.token_from(TokenType::Dot, start, line);
                    },
                }
            } else if c == 59 {
                self.consume();
                proof {
                    lemma_line_end(b, start + 1);
                }
                self.skip_line();
            } else if c == 44 {
                self.consume();
                if self.peek() == Some(64u8) {
                    self.consume();
                    return self.token_from(TokenType::AtMark, start, line);
                }
                return self.token_from(TokenType::Comma, start, line);
            } else if c == 35 {
                self.consume();
                match self.peek() {
                    Some(d) => {
                        if d == 40 {
                            self.consume();
                            return self.token_from(TokenType::Vec, start, line);
                        } else if d == 33 {
                            self.consume();
                            proof {
                                lemma_line_end(b, start + 2);
                            }
                            self.skip_line();
                        } else if Self::is_one_of(" tfodxb\\", d) {
                            proof {
                                lemma_sharp_const_bytes(d);
                            }
                            self.consume();
                            if d != 32 {
                                self.skip_atom();
                            }
                            return self.token_from(TokenType::SharpConst, start, line);
                        } else {
                            proof {
                                lemma_sharp_const_bytes(d);
                            }
                            return self.token_from(TokenType::Sharp, start, line);
                        }
                    },
                    None => {
                        return self.token_from(TokenType::Sharp, start, line);
                    },
                }
            } else {
                self.skip_atom();
                return self.token_from(TokenType::Atom, start, line);
            }
        }
    }

    /// All tokens until the end of the input (the `Eof` token excluded).
    pub fn tokenize(&mut self) -> (tokens: Vec<Token>)
        ensures
            final(self).spec_input() == old(self).spec_input(),
            tokens_are(
                tokens@,
                old(self).spec_input(),
                spec_tokens(old(self).spec_input(), old(self).spec_position()),
            ),
            final(self).spec_position() == old(self).spec_input().len(),
            forall|k: int|
                0 <= k < tokens@.len() ==> (#[trigger] tokens@[k]).token_type != TokenType::Eof
                    && old(self).spec_position() <= tokens@[k].start < tokens@[k].end
                    <= old(self).spec_input().len(),
            forall|k: int, l: int|
                0 <= k < l < tokens@.len() ==> (#[trigger] tokens@[k]).end <= (
                #[trigger] tokens@[l]).start,
    {
        let ghost b = self.spec_input();
        let ghost p0 = self.spec_position();
        proof {
            use_type_invariant(&*self);
            encode_utf8_valid_utf8(self.input@);
            lemma_spec_tokens_ordered(b, p0);
        }
        let ghost mut done: Seq<(TokenType, int, int)> = Seq::empty();
        let mut tokens: Vec<Token> = Vec::new();
        proof {
            assert(spec_tokens(b, p0) =~= done + spec_tokens(b, p0));
        }
        loop
            invariant
                self.spec_input() == b,
                tokens_are(tokens@, b, done),
                spec_tokens(b, p0) == done + spec_tokens(b, self.spec_position()),
            ensures
                self.spec_input() == b,
                tokens_are(tokens@, b, spec_tokens(b, p0)),
                self.spec_position() == b.len(),
            decreases b.len() - self.spec_position(),
        {
            proof {
                use_type_invariant(&*self);
                encode_utf8_valid_utf8(self.input@);
                lemma_scan(b, self.spec_position());
            }
            let ghost p = self.spec_position();
            let token = self.next_token();
            proof {
                use_type_invariant(&*self);
            }
            match token.token_type {
                TokenType::Eof => {
                    proof {
                        assert(spec_tokens(b, p) =~= Seq::<(TokenType, int, int)>::empty());
                        assert(done + spec_tokens(b, p) =~= done);
                    }
                    break;
                },
                _ => {},
            }
            let ghost item = (token.token_type, token.start as int, token.end as int);
            let ghost old_toks = tokens@;
            tokens.push(token);
            proof {
                assert(spec_tokens(b, p) == seq![item] + spec_tokens(b, item.2));
                assert(done + spec_tokens(b, p) =~= done.push(item) + spec_tokens(b, item.2));
                done = done.push(item);
                assert(tokens_are(tokens@, b, done)) by {
                    assert forall|k: int| 0 <= k < tokens@.len() implies token_is(
                        #[trigger] tokens@[k],
                        b,
                        done[k].0,
                        done[k].1,
                        done[k].2,
                    ) by {
                        if k < tokens@.len() - 1 {
                            assert(tokens@[k] == old_toks[k]);
                        }
                    }
                }
            }
        }
        proof {
            let sp = spec_tokens(b, p0);
            assert forall|k: int| 0 <= k < tokens@.len() implies (#[trigger] tokens@[k]).token_type
                != TokenType::Eof && p0 <= tokens@[k].start < tokens@[k].end <= b.len() by {
                assert(token_is(tokens@[k], b, sp[k].0, sp[k].1, sp[k].2));
            }
            assert forall|k: int, l: int| 0 <= k < l < tokens@.len() implies (
            #[trigger] tokens@[k]).end <= (#[trigger] tokens@[l]).start by {
                assert(token_is(tokens@[k], b, sp[k].0, sp[k].1, sp[k].2));
                assert(token_is(tokens@[l], b, sp[l].0, sp[l].1, sp[l].2));
            }
        }
        tokens
    }
}

/// Whether `c` is a delimiter (see `is_delimiter`).
fn is_delimiter_byte(c: u8) -> (r: bool)
    ensures
        r == is_delimiter(c),
{
    proof {
        lemma_delimiter_bytes(c);
    }
    Tokenizer::is_whitespace(c) || Tokenizer::is_one_of("()\"';,#", c)
}

fn atom_end_at(b: &[u8], i: usize) -> (r: usize)
    requires
        i <= b@.len(),
    ensures
        r == atom_end(b@, i as int),
        i <= r <= b@.len(),
{
    let mut k = i;
    while k < b.len() && !is_delimiter_byte(b[k])
        invariant
            i <= k <= b@.len(),
            atom_end(b@, i as int) == atom_end(b@, k as int),
        decreases b@.len() - k,
    {
        k = k + 1;
    }
    k
}

fn line_end_at(b: &[u8], i: usize) -> (r: usize)
    requires
        i <= b@.len(),
    ensures
        r == line_end(b@, i as int),
{
    let mut k = i;
    while k < b.len()
        invariant
            i <= k <= b@.len(),
            line_end(b@, i as int) == line_end(b@, k as int),
        decreases b@.len() - k,
    {
        if b[k] == 10 {
            return k + 1;
        }
        k = k + 1;
    }
    k
}

/// The number of newlines among the bytes `from..to`.
fn count_newlines_between(b: &[u8], from: usize, to: usize) -> (r: usize)
    requires
        from <= to <= b@.len(),
    ensures
        r == count_newlines(b@, to as int) - count_newlines(b@, from as int),
{
    let mut n: usize = 0;
    let mut k = from;
    while k < to
        invariant
            from <= k <= to <= b@.len(),
            n == count_newlines(b@, k as int) - count_newlines(b@, from as int),
            n <= k - from,
        decreases to - k,
    {
        proof {
            lemma_count_newlines(b@, from as int, k as int);
        }
        if b[k] == 10 {
            n = n + 1;
        }
        k = k + 1;
    }
    n
}

/// The text of the bytes `s..e` of `input`, both character boundaries.
fn slice_text(input: &str, s: usize, e: usize) -> (r: String)
    requires
        s <= e <= input.spec_bytes().len(),
        is_char_boundary(input.spec_bytes(), s as int),
        is_char_boundary(input.spec_bytes(), e as int),
    ensures
        r@ == text_of(input.spec_bytes(), s as int, e as int),
{
    let ghost b = input.spec_bytes();
    proof {
        encode_utf8_valid_utf8(input@);
        lemma_boundary_in_prefix(b, s as int, e as int);
    }
    let (p, _) = input.split_at(e);
    proof {
        assert(p.spec_bytes() =~= b.subrange(0, e as int));
    }
    let (_, q) = p.split_at(s);
    proof {
        assert(q.spec_bytes() =~= b.subrange(s as int, e as int));
        encode_utf8_decode_utf8(q@);
    }
    q.to_owned()
}

/// All tokens of `input` (see `Tokenizer::tokenize`).
pub fn tokenize_string(input: &str) -> (tokens: Vec<Token>)
    requires
        input.spec_bytes().len() <= isize::MAX,
    ensures
        tokens_are(tokens@, input.spec_bytes(), spec_tokens(input.spec_bytes(), 0)),
{
    let mut tokenizer = Tokenizer::new(input);
    tokenizer.tokenize()
}

} // verus!
