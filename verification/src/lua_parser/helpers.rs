//! The pieces of the Lua lexer: symbols, string literals with escapes,
//! numerals, identifiers and keywords, each a function on a character
//! sequence and a position.
use vstd::prelude::*;
use vstd::utf8::{encode_scalar, encode_utf8};
use crate::lua_parser_types::{SpecToken, Token};
use crate::text::{
    alphabetic, alphanumeric, char_is_alphabetic, char_is_alphanumeric, chars_eq_str,
    chars_occur_at, chars_of, str_char_len, occurs_at, push_char, string_from_chars,
    unicode_white_space,
};

verus! {

/// The symbol spelled at position `i`, with its spelling: the first entry of
/// the lexer's symbol list (longer spellings before their prefixes) that
/// occurs there.
pub open spec fn spec_symbol(s: Seq<char>, i: int) -> Option<(Seq<char>, SpecToken)> {
    if occurs_at(s, i, "..."@) { Some(("..."@, SpecToken::Varargs)) }
    else if occurs_at(s, i, "::"@) { Some(("::"@, SpecToken::DoubleColon)) }
    else if occurs_at(s, i, "//"@) { Some(("//"@, SpecToken::DoubleSlash)) }
    else if occurs_at(s, i, ">>"@) { Some((">>"@, SpecToken::RShift)) }
    else if occurs_at(s, i, "<<"@) { Some(("<<"@, SpecToken::LShift)) }
    else if occurs_at(s, i, ".."@) { Some((".."@, SpecToken::Concat)) }
    else if occurs_at(s, i, "<="@) { Some(("<="@, SpecToken::Lte)) }
    else if occurs_at(s, i, ">="@) { Some((">="@, SpecToken::Gte)) }
    else if occurs_at(s, i, "=="@) { Some(("=="@, SpecToken::Eq)) }
    else if occurs_at(s, i, "~="@) { Some(("~="@, SpecToken::Neq)) }
    else if occurs_at(s, i, ":"@) { Some((":"@, SpecToken::Colon)) }
    else if occurs_at(s, i, "."@) { Some(("."@, SpecToken::Dot)) }
    else if occurs_at(s, i, "="@) { Some(("="@, SpecToken::Equals)) }
    else if occurs_at(s, i, ","@) { Some((","@, SpecToken::Comma)) }
    else if occurs_at(s, i, ";"@) { Some((";"@, SpecToken::Semicolon)) }
    else if occurs_at(s, i, "("@) { Some(("("@, SpecToken::LParen)) }
    else if occurs_at(s, i, ")"@) { Some((")"@, SpecToken::RParen)) }
    else if occurs_at(s, i, "["@) { Some(("["@, SpecToken::LBracket)) }
    else if occurs_at(s, i, "]"@) { Some(("]"@, SpecToken::RBracket)) }
    else if occurs_at(s, i, "{"@) { Some(("{"@, SpecToken::LBrace)) }
    else if occurs_at(s, i, "}"@) { Some(("}"@, SpecToken::RBrace)) }
    else if occurs_at(s, i, "+"@) { Some(("+"@, SpecToken::Plus)) }
    else if occurs_at(s, i, "-"@) { Some(("-"@, SpecToken::Minus)) }
    else if occurs_at(s, i, "*"@) { Some(("*"@, SpecToken::Star)) }
    else if occurs_at(s, i, "/"@) { Some(("/"@, SpecToken::Slash)) }
    else if occurs_at(s, i, "^"@) { Some(("^"@, SpecToken::Caret)) }
    else if occurs_at(s, i, "%"@) { Some(("%"@, SpecToken::Percent)) }
    else if occurs_at(s, i, "&"@) { Some(("&"@, SpecToken::Ampersand)) }
    else if occurs_at(s, i, "~"@) { Some(("~"@, SpecToken::Tilde)) }
    else if occurs_at(s, i, "|"@) { Some(("|"@, SpecToken::Pipe)) }
    else if occurs_at(s, i, "<"@) { Some(("<"@, SpecToken::Lt)) }
    else if occurs_at(s, i, ">"@) { Some((">"@, SpecToken::Gt)) }
    else if occurs_at(s, i, "#"@) { Some(("#"@, SpecToken::Hash)) }
    else { None }
}

/// The keyword spelled by `w`, if it is one of Lua's reserved words.
pub open spec fn spec_keyword(w: Seq<char>) -> Option<SpecToken> {
    if w == "and"@ { Some(SpecToken::And) }
    else if w == "break"@ { Some(SpecToken::Break) }
    else if w == "do"@ { Some(SpecToken::Do) }
    else if w == "else"@ { Some(SpecToken::Else) }
    else if w == "elseif"@ { Some(SpecToken::Elseif) }
    else if w == "end"@ { Some(SpecToken::End) }
    else if w == "false"@ { Some(SpecToken::False) }
    else if w == "for"@ { Some(SpecToken::For) }
    else if w == "function"@ { Some(SpecToken::Function) }
    else if w == "goto"@ { Some(SpecToken::Goto) }
    else if w == "if"@ { Some(SpecToken::If) }
    else if w == "in"@ { Some(SpecToken::In) }
    else if w == "local"@ { Some(SpecToken::Local) }
    else if w == "nil"@ { Some(SpecToken::Nil) }
    else if w == "not"@ { Some(SpecToken::Not) }
    else if w == "or"@ { Some(SpecToken::Or) }
    else if w == "repeat"@ { Some(SpecToken::Repeat) }
    else if w == "return"@ { Some(SpecToken::Return) }
    else if w == "then"@ { Some(SpecToken::Then) }
    else if w == "true"@ { Some(SpecToken::True) }
    else if w == "until"@ { Some(SpecToken::Until) }
    else if w == "while"@ { Some(SpecToken::While) }
    else { None }
}

/// The text of a quoted string with the escapes `\n`, `\t`, `\r`, `\\`,
/// `\"` and `\'` replaced by the characters they stand for; any other
/// backslash is kept as it is.
pub open spec fn spec_escapes(s: Seq<char>) -> Seq<char>
    decreases s.len(),
{
    if s.len() == 0 {
        Seq::empty()
    } else if s[0] == '\\' && s.len() >= 2 && escape_char(s[1]) is Some {
        seq![escape_char(s[1])->0] + spec_escapes(s.skip(2))
    } else {
        seq![s[0]] + spec_escapes(s.skip(1))
    }
}

/// The number of escapes `spec_escapes` replaces in `s`, found from left
/// to right without overlap.
pub open spec fn escape_count(s: Seq<char>) -> nat
    decreases s.len(),
{
    if s.len() == 0 {
        0
    } else if s[0] == '\\' && s.len() >= 2 && escape_char(s[1]) is Some {
        1 + escape_count(s.skip(2))
    } else {
        escape_count(s.skip(1))
    }
}

/// Replacing the escapes shortens the text by one character for each
/// escape, and never lengthens it.
pub proof fn lemma_escapes_len(s: Seq<char>)
    ensures
        spec_escapes(s).len() + escape_count(s) == s.len(),
        spec_escapes(s).len() <= s.len(),
    decreases s.len(),
{
    if s.len() > 0 {
        if s[0] == '\\' && s.len() >= 2 && escape_char(s[1]) is Some {
            lemma_escapes_len(s.skip(2));
        } else {
            lemma_escapes_len(s.skip(1));
        }
    }
}

/// The UTF-8 bytes of a character followed by more text.
proof fn lemma_encode_cons(x: char, r: Seq<char>)
    ensures
        encode_utf8(seq![x] + r) == encode_scalar(x as u32) + encode_utf8(r),
{
    assert((seq![x] + r).drop_first() =~= r);
    assert((seq![x] + r)[0] == x);
}

/// In bytes too, replacing the escapes shortens the text by one for each
/// escape: an escape and the character it stands for are all ASCII.
pub proof fn lemma_escapes_bytes(s: Seq<char>)
    ensures
        encode_utf8(spec_escapes(s)).len() + escape_count(s) == encode_utf8(s).len(),
    decreases s.len(),
{
    if s.len() > 0 {
        if s[0] == '\\' && s.len() >= 2 && escape_char(s[1]) is Some {
            let e = escape_char(s[1])->0;
            lemma_escapes_bytes(s.skip(2));
            lemma_encode_cons(e, spec_escapes(s.skip(2)));
            assert(s =~= seq![s[0]] + (seq![s[1]] + s.skip(2)));
            lemma_encode_cons(s[0], seq![s[1]] + s.skip(2));
            lemma_encode_cons(s[1], s.skip(2));
        } else {
            lemma_escapes_bytes(s.skip(1));
            lemma_encode_cons(s[0], spec_escapes(s.skip(1)));
            assert(s =~= seq![s[0]] + s.skip(1));
            lemma_encode_cons(s[0], s.skip(1));
        }
    } else {
        assert(spec_escapes(s) =~= Seq::<char>::empty());
    }
}

/// The character that a backslash followed by `c` stands for.
pub open spec fn escape_char(c: char) -> Option<char> {
    if c == 'n' { Some('\n') }
    else if c == 't' { Some('\t') }
    else if c == 'r' { Some('\r') }
    else if c == '\\' { Some('\\') }
    else if c == '"' { Some('"') }
    else if c == '\'' { Some('\'') }
    else { None }
}

/// Distinct escapes stand for distinct characters; the escaped quoting
/// characters (backslash and both quotes) stand for themselves and every
/// other escape for a whitespace control character; and only `\n` stands
/// for the character that starts a new line where source locations are
/// counted.
pub proof fn lemma_escape_chars(x: char, y: char, at: (int, int))
    ensures
        escape_char(x) is Some && escape_char(x) == escape_char(y) ==> x == y,
        escape_char(x) is Some ==> (escape_char(x)->0 == x <==> (x == '\\' || x == '"' || x
            == '\'')),
        escape_char(x) is Some && escape_char(x)->0 != x ==> unicode_white_space(
            escape_char(x)->0,
        ) && (escape_char(x)->0 as u32) < 0x20,
        escape_char(x) is Some ==> (crate::lua_parser::location::step(at, escape_char(x)->0).0
            == at.0 + 1 <==> x == 'n'),
{
}

/// The first position at or after `i` that holds `c`, if any.
pub open spec fn find_char(s: Seq<char>, i: int, c: char) -> Option<int>
    decreases s.len() - i,
{
    if i < 0 || i >= s.len() {
        None
    } else if s[i] == c {
        Some(i)
    } else {
        find_char(s, i + 1, c)
    }
}

/// The string literal at position `i`: its end (after the closing quote)
/// and its text with escapes replaced. A literal opens with `'` or `"` and
/// closes at the next occurrence of the same quote.
pub open spec fn spec_string_literal(s: Seq<char>, i: int) -> Option<(int, Seq<char>)> {
    if 0 <= i < s.len() && (s[i] == '\'' || s[i] == '"') {
        match find_char(s, i + 1, s[i]) {
            Some(j) => Some((j + 1, spec_escapes(s.subrange(i + 1, j)))),
            None => None,
        }
    } else {
        None
    }
}

/// Whether `c` is an ASCII decimal digit.
pub open spec fn is_digit(c: char) -> bool {
    '0' <= c <= '9'
}

/// The end of the run of characters satisfying the test from position `i`.
pub open spec fn digits_end(s: Seq<char>, i: int) -> int
    decreases s.len() - i,
{
    if 0 <= i < s.len() && is_digit(s[i]) {
        digits_end(s, i + 1)
    } else {
        i
    }
}

/// The end of the numeral at position `i`: digits, then a dot and digits
/// if digits follow the dot.
pub open spec fn spec_number(s: Seq<char>, i: int) -> Option<int> {
    let d = digits_end(s, i);
    if 0 <= i && d == i {
        None
    } else if i < 0 {
        None
    } else if d < s.len() && s[d] == '.' && digits_end(s, d + 1) > d + 1 {
        Some(digits_end(s, d + 1))
    } else {
        Some(d)
    }
}

/// Whether `c` may start an identifier.
pub open spec fn ident_start(c: char) -> bool {
    alphabetic(c) || c == '_'
}

/// Whether `c` may continue an identifier.
pub open spec fn ident_continue(c: char) -> bool {
    alphanumeric(c) || c == '_'
}

/// The end of the run of identifier characters from position `i`.
pub open spec fn ident_end(s: Seq<char>, i: int) -> int
    decreases s.len() - i,
{
    if 0 <= i < s.len() && ident_continue(s[i]) {
        ident_end(s, i + 1)
    } else {
        i
    }
}

/// The end of the identifier at position `i`.
pub open spec fn spec_identifier(s: Seq<char>, i: int) -> Option<int> {
    if 0 <= i < s.len() && ident_start(s[i]) {
        Some(ident_end(s, i + 1))
    } else {
        None
    }
}

/// The token at position `i` and the position after it: a symbol, else a
/// string literal, else a numeral, else an identifier or keyword.
pub open spec fn spec_single_token(s: Seq<char>, i: int) -> Option<(int, SpecToken)> {
    match spec_symbol(s, i) {
        Some((w, t)) => Some((i + w.len(), t)),
        None => match spec_string_literal(s, i) {
            Some((e, text)) => Some((e, SpecToken::StringLit(text))),
            None => match spec_number(s, i) {
                Some(e) => Some((e, SpecToken::Number(s.subrange(i, e)))),
                None => match spec_identifier(s, i) {
                    Some(e) => Some((
                        e,
                        match spec_keyword(s.subrange(i, e)) {
                            Some(k) => k,
                            None => SpecToken::Identifier(s.subrange(i, e)),
                        },
                    )),
                    None => None,
                },
            },
        },
    }
}

pub proof fn lemma_digits_end(s: Seq<char>, i: int)
    requires
        0 <= i <= s.len(),
    ensures
        i <= digits_end(s, i) <= s.len(),
        forall|k: int| i <= k < digits_end(s, i) ==> is_digit(#[trigger] s[k]),
    decreases s.len() - i,
{
    if i < s.len() && is_digit(s[i]) {
        lemma_digits_end(s, i + 1);
    }
}

pub proof fn lemma_ident_end(s: Seq<char>, i: int)
    requires
        0 <= i <= s.len(),
    ensures
        i <= ident_end(s, i) <= s.len(),
    decreases s.len() - i,
{
    if i < s.len() && ident_continue(s[i]) {
        lemma_ident_end(s, i + 1);
    }
}

pub proof fn lemma_find_char(s: Seq<char>, i: int, c: char)
    requires
        0 <= i,
    ensures
        find_char(s, i, c) matches Some(j) ==> i <= j < s.len() && s[j] == c,
        find_char(s, i, c) is None ==> forall|k: int| i <= k < s.len() ==> s[k] != c,
    decreases s.len() - i,
{
    if i < s.len() && s[i] != c {
        lemma_find_char(s, i + 1, c);
    }
}

/// The single token lexed at `i` ends after `i`, within the input.
pub proof fn lemma_single_token_advances(s: Seq<char>, i: int)
    requires
        0 <= i < s.len(),
    ensures
        spec_single_token(s, i) matches Some((e, _)) ==> i < e <= s.len(),
{
    reveal_strlit("...");
    reveal_strlit("::");
    reveal_strlit("//");
    reveal_strlit(">>");
    reveal_strlit("<<");
    reveal_strlit("..");
    reveal_strlit("<=");
    reveal_strlit(">=");
    reveal_strlit("==");
    reveal_strlit("~=");
    reveal_strlit(":");
    reveal_strlit(".");
    reveal_strlit("=");
    reveal_strlit(",");
    reveal_strlit(";");
    reveal_strlit("(");
    reveal_strlit(")");
    reveal_strlit("[");
    reveal_strlit("]");
    reveal_strlit("{");
    reveal_strlit("}");
    reveal_strlit("+");
    reveal_strlit("-");
    reveal_strlit("*");
    reveal_strlit("/");
    reveal_strlit("^");
    reveal_strlit("%");
    reveal_strlit("&");
    reveal_strlit("~");
    reveal_strlit("|");
    reveal_strlit("<");
    reveal_strlit(">");
    reveal_strlit("#");
    lemma_digits_end(s, i);
    if digits_end(s, i) < s.len() {
        lemma_digits_end(s, digits_end(s, i) + 1);
    }
    lemma_ident_end(s, i + 1);
    lemma_find_char(s, i + 1, s[i]);
}

/// The position of the next `c` at or after `i`, if any.
pub fn find_char_from(v: &[char], i: usize, c: char) -> (r: Option<usize>)
    requires
        i <= v@.len(),
    ensures
        r == (match find_char(v@, i as int, c) {
            Some(j) => Some(j as usize),
            None => None::<usize>,
        }),
        r matches Some(j) ==> i <= j < v@.len(),
{
    let mut k = i;
    while k < v.len()
        invariant
            i <= k <= v@.len(),
            find_char(v@, i as int, c) == find_char(v@, k as int, c),
        decreases v@.len() - k,
    {
        if v[k] == c {
            return Some(k);
        }
        k = k + 1;
    }
    None
}

/// Replace the escape sequences `\n`, `\t`, `\r`, `\\`, `\"` and `\'` of a
/// string literal's text by the characters they stand for.
pub fn process_escape_sequences(s: &str) -> (r: String)
    ensures
        r@ == spec_escapes(s@),
        r@.len() + escape_count(s@) == s@.len(),
        encode_utf8(r@).len() + escape_count(s@) == encode_utf8(s@).len(),
{
    proof {
        lemma_escapes_len(s@);
        lemma_escapes_bytes(s@);
    }
    let v = chars_of(s);
    proof {
        assert(v@.subrange(0, v@.len() as int) =~= v@);
    }
    escapes_of(&v, 0, v.len())
}

/// `process_escape_sequences` on the characters `v[lo..hi]`.
pub fn escapes_of(v: &[char], lo: usize, hi: usize) -> (r: String)
    requires
        lo <= hi <= v@.len(),
    ensures
        r@ == spec_escapes(v@.subrange(lo as int, hi as int)),
{
    let mut result = String::new();
    let mut i = lo;
    while i < hi
        invariant
            lo <= i <= hi <= v@.len(),
            result@ + spec_escapes(v@.subrange(i as int, hi as int))
                == spec_escapes(v@.subrange(lo as int, hi as int)),
        decreases hi - i,
    {
        let ghost rest = v@.subrange(i as int, hi as int);
        let ch = v[i];
        let mut used: usize = 1;
        if ch == '\\' && i + 1 < hi {
            let next = v[i + 1];
            if next == 'n' {
                push_char(&mut result, '\n');
                used = 2;
            } else if next == 't' {
                push_char(&mut result, '\t');
                used = 2;
            } else if next == 'r' {
                push_char(&mut result, '\r');
                used = 2;
            } else if next == '\\' {
                push_char(&mut result, '\\');
                used = 2;
            } else if next == '"' {
                push_char(&mut result, '"');
                used = 2;
            } else if next == '\'' {
                push_char(&mut result, '\'');
                used = 2;
            } else {
                push_char(&mut result, ch);
            }
        } else {
            push_char(&mut result, ch);
        }
        proof {
            assert(rest.skip(used as int) =~= v@.subrange(i + used, hi as int));
            assert(rest[0] == ch);
            if used == 2 {
                assert(rest[1] == v@[i + 1]);
            }
            assert(spec_escapes(rest) == seq![result@.last()] + spec_escapes(
                rest.skip(used as int),
            ));
            assert(result@ + spec_escapes(rest.skip(used as int)) =~= result@.drop_last()
                + spec_escapes(rest));
        }
        i = i + used;
    }
    proof {
        assert(v@.subrange(hi as int, hi as int) =~= Seq::<char>::empty());
        assert(result@ =~= result@ + spec_escapes(v@.subrange(hi as int, hi as int)));
    }
    result
}

/// The symbol at position `i` and the position after it.
pub fn symbol(v: &[char], i: usize) -> (r: Option<(usize, Token)>)
    requires
        i <= v@.len(),
    ensures
        match spec_symbol(v@, i as int) {
            Some((w, t)) => r matches Some((e, tok)) && e == i + w.len() && tok@ == t,
            None => r is None,
        },
{
    let _len = v.len();
    if chars_occur_at(v, i, "...") {
        return Some((i + str_char_len("..."), Token::Varargs));
    }
    if chars_occur_at(v, i, "::") {
        return Some((i + str_char_len("::"), Token::DoubleColon));
    }
    if chars_occur_at(v, i, "//") {
        return Some((i + str_char_len("//"), Token::DoubleSlash));
    }
    if chars_occur_at(v, i, ">>") {
        return Some((i + str_char_len(">>"), Token::RShift));
    }
    if chars_occur_at(v, i, "<<") {
        return Some((i + str_char_len("<<"), Token::LShift));
    }
    if chars_occur_at(v, i, "..") {
        return Some((i + str_char_len(".."), Token::Concat));
    }
    if chars_occur_at(v, i, "<=") {
        return Some((i + str_char_len("<="), Token::Lte));
    }
    if chars_occur_at(v, i, ">=") {
        return Some((i + str_char_len(">="), Token::Gte));
    }
    if chars_occur_at(v, i, "==") {
        return Some((i + str_char_len("=="), Token::Eq));
    }
    if chars_occur_at(v, i, "~=") {
        return Some((i + str_char_len("~="), Token::Neq));
    }
    if chars_occur_at(v, i, ":") {
        return Some((i + str_char_len(":"), Token::Colon));
    }
    if chars_occur_at(v, i, ".") {
        return Some((i + str_char_len("."), Token::Dot));
    }
    if chars_occur_at(v, i, "=") {
        return Some((i + str_char_len("="), Token::Equals));
    }
    if chars_occur_at(v, i, ",") {
        return Some((i + str_char_len(","), Token::Comma));
    }
    if chars_occur_at(v, i, ";") {
        return Some((i + str_char_len(";"), Token::Semicolon));
    }
    if chars_occur_at(v, i, "(") {
        return Some((i + str_char_len("("), Token::LParen));
    }
    if chars_occur_at(v, i, ")") {
        return Some((i + str_char_len(")"), Token::RParen));
    }
    if chars_occur_at(v, i, "[") {
        return Some((i + str_char_len("["), Token::LBracket));
    }
    if chars_occur_at(v, i, "]") {
        return Some((i + str_char_len("]"), Token::RBracket));
    }
    if chars_occur_at(v, i, "{") {
        return Some((i + str_char_len("{"), Token::LBrace));
    }
    if chars_occur_at(v, i, "}") {
        return Some((i + str_char_len("}"), Token::RBrace));
    }
    if chars_occur_at(v, i, "+") {
        return Some((i + str_char_len("+"), Token::Plus));
    }
    if chars_occur_at(v, i, "-") {
        return Some((i + str_char_len("-"), Token::Minus));
    }
    if chars_occur_at(v, i, "*") {
        return Some((i + str_char_len("*"), Token::Star));
    }
    if chars_occur_at(v, i, "/") {
        return Some((i + str_char_len("/"), Token::Slash));
    }
    if chars_occur_at(v, i, "^") {
        return Some((i + str_char_len("^"), Token::Caret));
    }
    if chars_occur_at(v, i, "%") {
        return Some((i + str_char_len("%"), Token::Percent));
    }
    if chars_occur_at(v, i, "&") {
        return Some((i + str_char_len("&"), Token::Ampersand));
    }
    if chars_occur_at(v, i, "~") {
        return Some((i + str_char_len("~"), Token::Tilde));
    }
    if chars_occur_at(v, i, "|") {
        return Some((i + str_char_len("|"), Token::Pipe));
    }
    if chars_occur_at(v, i, "<") {
        return Some((i + str_char_len("<"), Token::Lt));
    }
    if chars_occur_at(v, i, ">") {
        return Some((i + str_char_len(">"), Token::Gt));
    }
    if chars_occur_at(v, i, "#") {
        return Some((i + str_char_len("#"), Token::Hash));
    }
    None
}

/// The keyword spelled by `v[lo..hi]`, if any.
pub fn keyword(v: &[char], lo: usize, hi: usize) -> (r: Option<Token>)
    requires
        lo <= hi <= v@.len(),
    ensures
        match spec_keyword(v@.subrange(lo as int, hi as int)) {
            Some(t) => r matches Some(tok) && tok@ == t,
            None => r is None,
        },
{
    if chars_eq_str(v, lo, hi, "and") {
        return Some(Token::And);
    }
    if chars_eq_str(v, lo, hi, "break") {
        return Some(Token::Break);
    }
    if chars_eq_str(v, lo, hi, "do") {
        return Some(Token::Do);
    }
    if chars_eq_str(v, lo, hi, "else") {
        return Some(Token::Else);
    }
    if chars_eq_str(v, lo, hi, "elseif") {
        return Some(Token::Elseif);
    }
    if chars_eq_str(v, lo, hi, "end") {
        return Some(Token::End);
    }
    if chars_eq_str(v, lo, hi, "false") {
        return Some(Token::False);
    }
    if chars_eq_str(v, lo, hi, "for") {
        return Some(Token::For);
    }
    if chars_eq_str(v, lo, hi, "function") {
        return Some(Token::Function);
    }
    if chars_eq_str(v, lo, hi, "goto") {
        return Some(Token::Goto);
    }
    if chars_eq_str(v, lo, hi, "if") {
        return Some(Token::If);
    }
    if chars_eq_str(v, lo, hi, "in") {
        return Some(Token::In);
    }
    if chars_eq_str(v, lo, hi, "local") {
        return Some(Token::Local);
    }
    if chars_eq_str(v, lo, hi, "nil") {
        return Some(Token::Nil);
    }
    if chars_eq_str(v, lo, hi, "not") {
        return Some(Token::Not);
    }
    if chars_eq_str(v, lo, hi, "or") {
        return Some(Token::Or);
    }
    if chars_eq_str(v, lo, hi, "repeat") {
        return Some(Token::Repeat);
    }
    if chars_eq_str(v, lo, hi, "return") {
        return Some(Token::Return);
    }
    if chars_eq_str(v, lo, hi, "then") {
        return Some(Token::Then);
    }
    if chars_eq_str(v, lo, hi, "true") {
        return Some(Token::True);
    }
    if chars_eq_str(v, lo, hi, "until") {
        return Some(Token::Until);
    }
    if chars_eq_str(v, lo, hi, "while") {
        return Some(Token::While);
    }
    None
}

/// The string literal at position `i`: the position after its closing
/// quote and its text with escapes replaced.
pub fn string_literal(v: &[char], i: usize) -> (r: Option<(usize, String)>)
    requires
        i <= v@.len(),
    ensures
        match spec_string_literal(v@, i as int) {
            Some((e, text)) => r matches Some((e2, t)) && e2 == e && t@ == text,
            None => r is None,
        },
{
    if i < v.len() && (v[i] == '\'' || v[i] == '"') {
        proof {
            lemma_find_char(v@, i + 1, v@[i as int]);
        }
        match find_char_from(v, i + 1, v[i]) {
            Some(j) => Some((j + 1, escapes_of(v, i + 1, j))),
            None => None,
        }
    } else {
        None
    }
}

/// The end of the run of ASCII digits from position `i`.
pub fn digits_end_at(v: &[char], i: usize) -> (e: usize)
    requires
        i <= v@.len(),
    ensures
        e == digits_end(v@, i as int),
        i <= e <= v@.len(),
{
    let mut k = i;
    while k < v.len() && '0' <= v[k] && v[k] <= '9'
        invariant
            i <= k <= v@.len(),
            digits_end(v@, i as int) == digits_end(v@, k as int),
        decreases v@.len() - k,
    {
        k = k + 1;
    }
    k
}

/// The end of the numeral at position `i`.
pub fn number(v: &[char], i: usize) -> (r: Option<usize>)
    requires
        i <= v@.len(),
    ensures
        match spec_number(v@, i as int) {
            Some(e) => r == Some(e as usize) && i < e <= v@.len(),
            None => r is None,
        },
{
    proof {
        lemma_digits_end(v@, i as int);
        if digits_end(v@, i as int) < v@.len() {
            lemma_digits_end(v@, digits_end(v@, i as int) + 1);
        }
    }
    let d = digits_end_at(v, i);
    if d == i {
        return None;
    }
    if d < v.len() && v[d] == '.' {
        let f = digits_end_at(v, d + 1);
        if f > d + 1 {
            return Some(f);
        }
    }
    Some(d)
}

/// The end of the identifier at position `i`.
pub fn identifier(v: &[char], i: usize) -> (r: Option<usize>)
    requires
        i <= v@.len(),
    ensures
        match spec_identifier(v@, i as int) {
            Some(e) => r == Some(e as usize) && i < e <= v@.len(),
            None => r is None,
        },
{
    proof {
        if i < v@.len() {
            lemma_ident_end(v@, i + 1);
        }
    }
    if i < v.len() && (char_is_alphabetic(v[i]) || v[i] == '_') {
        let mut k = i + 1;
        while k < v.len() && (char_is_alphanumeric(v[k]) || v[k] == '_')
            invariant
                i < k <= v@.len(),
                ident_end(v@, i + 1) == ident_end(v@, k as int),
            decreases v@.len() - k,
        {
            k = k + 1;
        }
        Some(k)
    } else {
        None
    }
}

/// The token at position `i` and the position after it, or `None` when no
/// token starts there: a symbol, else a string literal, else a numeral,
/// else an identifier or keyword.
pub fn tokenize_single(v: &[char], i: usize) -> (r: Option<(usize, Token)>)
    requires
        i <= v@.len(),
    ensures
        match spec_single_token(v@, i as int) {
            Some((e, t)) => r matches Some((e2, tok)) && e2 == e && tok@ == t,
            None => r is None,
        },
{
    let _len = v.len();
    if let Some((e, t)) = symbol(v, i) {
        return Some((e, t));
    }
    if let Some((e, text)) = string_literal(v, i) {
        return Some((e, Token::StringLit(text)));
    }
    if let Some(e) = number(v, i) {
        return Some((e, Token::Number(string_from_chars(v, i, e))));
    }
    if let Some(e) = identifier(v, i) {
        return match keyword(v, i, e) {
            Some(k) => Some((e, k)),
            None => Some((e, Token::Identifier(string_from_chars(v, i, e)))),
        };
    }
    None
}

} // verus!
