//! Location tracking for tokens and syntax-tree nodes: lines count from 1,
//! columns from 0, and a newline moves to the start of the next line.
use vstd::prelude::*;
use vstd::utf8::*;
use crate::lua_parser_types::Token;
use crate::lua_parser::helpers::{find_char, find_char_from, lemma_find_char};
use crate::text::{
    char_is_whitespace, chars_of, chars_occur_at, decimal, occurs_at, push_decimal,
    unicode_white_space,
};

verus! {

/// Source location information (line and column numbers)
#[derive(Debug, Clone, Copy, PartialEq, Eq, Structural)]
pub struct Location {
    /// 1-based line number
    pub line: usize,
    /// 0-based column number (position in the line)
    pub column: usize,
}

impl Location {
    /// Create a new location
    pub fn new(line: usize, column: usize) -> (l: Self)
        ensures
            l.line == line,
            l.column == column,
    {
        Location { line, column }
    }

    /// Create a location at the start of a file
    pub fn start() -> (l: Self)
        ensures
            l.line == 1,
            l.column == 0,
    {
        Location { line: 1, column: 0 }
    }

    /// The location as displayed: `line:column`.
    pub open spec fn spec_display(self) -> Seq<char> {
        decimal(self.line as nat) + ":"@ + decimal(self.column as nat)
    }

    /// The location as displayed: `line:column`.
    pub fn to_string(&self) -> (s: String)
        ensures
            s@ == self.spec_display(),
    {
        let mut s = String::new();
        push_decimal(&mut s, self.line);
        s.append(":");
        push_decimal(&mut s, self.column);
        s
    }
}

/// A token paired with its source location
#[derive(Debug, Clone, PartialEq, Eq)]
pub struct TokenWithLocation {
    pub token: Token,
    pub location: Location,
}

impl TokenWithLocation {
    /// Create a new token with location
    pub fn new(token: Token, location: Location) -> (t: Self)
        ensures
            t.token == token,
            t.location == location,
    {
        TokenWithLocation { token, location }
    }
}

/// The (line, column) after reading `c` at (line, column).
pub open spec fn step(at: (int, int), c: char) -> (int, int) {
    if c == '\n' {
        (at.0 + 1, 0)
    } else {
        (at.0, at.1 + 1)
    }
}

/// The (line, column) after reading the characters `s` from `at`.
pub open spec fn walk(at: (int, int), s: Seq<char>) -> (int, int)
    decreases s.len(),
{
    if s.len() == 0 {
        at
    } else {
        step(walk(at, s.drop_last()), s.last())
    }
}

/// The number of newlines in `s`.
pub open spec fn newlines(s: Seq<char>) -> nat
    decreases s.len(),
{
    if s.len() == 0 {
        0
    } else {
        newlines(s.drop_last()) + if s.last() == '\n' {
            1nat
        } else {
            0nat
        }
    }
}

/// Reading `a` and then `b` ends where reading `a + b` ends: advancing over
/// a text piece by piece is advancing over the whole of it.
pub proof fn lemma_walk_concat(at: (int, int), a: Seq<char>, b: Seq<char>)
    ensures
        walk(at, a + b) == walk(walk(at, a), b),
    decreases b.len(),
{
    if b.len() == 0 {
        assert(a + b =~= a);
    } else {
        lemma_walk_concat(at, a, b.drop_last());
        assert((a + b).drop_last() =~= a + b.drop_last());
        assert((a + b).last() == b.last());
    }
}

/// After reading `s`, the line is the starting line plus the number of
/// newlines in `s`; the column counts the characters after the last
/// newline, or is advanced by the length of `s` when it has none.
pub proof fn lemma_walk_lines(at: (int, int), s: Seq<char>)
    ensures
        walk(at, s).0 == at.0 + newlines(s),
        newlines(s) == 0 ==> walk(at, s).1 == at.1 + s.len(),
    decreases s.len(),
{
    if s.len() > 0 {
        lemma_walk_lines(at, s.drop_last());
    }
}

/// Whether every (line, column) met while reading `s` from `at` fits in a
/// `usize`.
pub open spec fn walk_fits(at: (int, int), s: Seq<char>) -> bool
    decreases s.len(),
{
    if s.len() == 0 {
        true
    } else {
        let n = walk(at, s);
        walk_fits(at, s.drop_last()) && n.0 <= usize::MAX && n.1 <= usize::MAX
    }
}

/// The number of leading characters of `s` from position `i` that are
/// whitespace or `--` comments (each up to and including its newline).
pub open spec fn trivia_end(s: Seq<char>, i: int) -> int
    decreases s.len() - i,
{
    if i < 0 || i >= s.len() {
        i
    } else if occurs_at(s, i, "--"@) {
        match find_char(s, i, '\n') {
            Some(k) => {
                proof {
                    lemma_find_char(s, i, '\n');
                }
                trivia_end(s, k + 1)
            },
            None => s.len() as int,
        }
    } else if unicode_white_space(s[i]) {
        trivia_end(s, i + 1)
    } else {
        i
    }
}

pub proof fn lemma_trivia_end(s: Seq<char>, i: int)
    requires
        0 <= i <= s.len(),
    ensures
        i <= trivia_end(s, i) <= s.len(),
    decreases s.len() - i,
{
    if i < s.len() {
        if occurs_at(s, i, "--"@) {
            lemma_find_char(s, i, '\n');
            if let Some(k) = find_char(s, i, '\n') {
                lemma_trivia_end(s, k + 1);
            }
        } else if unicode_white_space(s[i]) {
            lemma_trivia_end(s, i + 1);
        }
    }
}

/// Whether the characters `i..j` of `s` are a run of Unicode whitespace
/// and `--` comments, each comment running through its newline (or to the
/// end of the text).
#[verifier::opaque]
pub open spec fn lua_trivia(s: Seq<char>, i: int, j: int) -> bool
    decreases j - i,
{
    if i == j {
        true
    } else if !(0 <= i < j <= s.len()) {
        false
    } else if occurs_at(s, i, "--"@) {
        let e = match find_char(s, i, '\n') {
            Some(k) => k + 1,
            None => s.len() as int,
        };
        i < e <= j && lua_trivia(s, e, j)
    } else if unicode_white_space(s[i]) {
        lua_trivia(s, i + 1, j)
    } else {
        false
    }
}

/// What `trivia_end` skips from `i` is a run of whitespace and comments,
/// and what follows it starts with neither.
pub proof fn lemma_trivia_end_run(s: Seq<char>, i: int)
    requires
        0 <= i <= s.len(),
    ensures
        lua_trivia(s, i, trivia_end(s, i)),
        trivia_end(s, i) < s.len() ==> !unicode_white_space(s[trivia_end(s, i)]) && !occurs_at(
            s,
            trivia_end(s, i),
            "--"@,
        ),
    decreases s.len() - i,
{
    reveal(lua_trivia);
    lemma_trivia_end(s, i);
    if i < s.len() {
        if occurs_at(s, i, "--"@) {
            lemma_find_char(s, i, '\n');
            match find_char(s, i, '\n') {
                Some(k) => {
                    lemma_trivia_end(s, k + 1);
                    lemma_trivia_end_run(s, k + 1);
                    assert(trivia_end(s, i) == trivia_end(s, k + 1));
                },
                None => {
                    assert(trivia_end(s, i) == s.len());
                    assert(lua_trivia(s, s.len() as int, s.len() as int));
                },
            }
        } else if unicode_white_space(s[i]) {
            lemma_trivia_end(s, i + 1);
            lemma_trivia_end_run(s, i + 1);
            assert(trivia_end(s, i) == trivia_end(s, i + 1));
        }
    }
}

/// One more character of a prefix that fits: the walk takes one step, and
/// that prefix fits too.
proof fn lemma_walk_step(at: (int, int), s: Seq<char>, next: int, m: int)
    requires
        0 <= m < next <= s.len(),
        walk_fits(at, s.take(next)),
    ensures
        walk_fits(at, s.take(m + 1)),
        walk(at, s.take(m + 1)) == step(walk(at, s.take(m)), s[m]),
{
    lemma_walk_fits_prefix(at, s.take(next), m + 1);
    assert(s.take(next).take(m + 1) =~= s.take(m + 1));
    assert(s.take(m + 1).drop_last() =~= s.take(m));
    assert(s.take(m + 1).last() == s[m]);
}

pub proof fn lemma_walk_fits_prefix(at: (int, int), s: Seq<char>, k: int)
    requires
        walk_fits(at, s),
        0 <= k <= s.len(),
    ensures
        walk_fits(at, s.take(k)),
    decreases s.len() - k,
{
    if k < s.len() {
        assert(s.take(k + 1).drop_last() =~= s.take(k));
        assert(s.drop_last() =~= s.take(s.len() - 1));
        lemma_walk_fits_prefix(at, s.drop_last(), k);
        assert(s.drop_last().take(k) =~= s.take(k));
    } else {
        assert(s.take(k) =~= s);
    }
}

/// Helper to track location while processing source code
pub struct LocationTracker {
    line: usize,
    column: usize,
}

impl View for LocationTracker {
    type V = (int, int);

    /// The current (line, column).
    closed spec fn view(&self) -> (int, int) {
        (self.line as int, self.column as int)
    }
}

impl LocationTracker {
    /// Create a new location tracker starting at line 1, column 0
    pub fn new() -> (t: Self)
        ensures
            t@ == (1int, 0int),
    {
        LocationTracker { line: 1, column: 0 }
    }

    /// Get current location
    pub fn current(&self) -> (l: Location)
        ensures
            l.line == self@.0,
            l.column == self@.1,
    {
        Location { line: self.line, column: self.column }
    }

    /// Record processing a character
    pub fn advance(&mut self, ch: char)
        requires
            step(old(self)@, ch).0 <= usize::MAX,
            step(old(self)@, ch).1 <= usize::MAX,
        ensures
            final(self)@ == step(old(self)@, ch),
    {
        if ch == '\n' {
            self.line = self.line + 1;
            self.column = 0;
        } else {
            self.column = self.column + 1;
        }
    }

    /// Record processing the characters of `s`.
    pub fn advance_str(&mut self, s: &str)
        requires
            walk_fits(old(self)@, s@),
        ensures
            final(self)@ == walk(old(self)@, s@),
    {
        let v = chars_of(s);
        proof {
            assert(v@.subrange(0, v@.len() as int) =~= v@);
        }
        self.advance_chars(&v, 0, v.len());
    }

    /// Record processing the characters `v[lo..hi]`.
    fn advance_chars(&mut self, v: &[char], lo: usize, hi: usize)
        requires
            lo <= hi <= v@.len(),
            walk_fits(old(self)@, v@.subrange(lo as int, hi as int)),
        ensures
            final(self)@ == walk(old(self)@, v@.subrange(lo as int, hi as int)),
    {
        let ghost at = self@;
        let ghost w = v@.subrange(lo as int, hi as int);
        let mut k = lo;
        while k < hi
            invariant
                lo <= k <= hi <= v@.len(),
                w == v@.subrange(lo as int, hi as int),
                walk_fits(at, w),
                self@ == walk(at, w.take(k - lo)),
            decreases hi - k,
        {
            proof {
                lemma_walk_fits_prefix(at, w, k - lo + 1);
                assert(w.take(k - lo + 1).drop_last() =~= w.take(k - lo));
                assert(w.take(k - lo + 1).last() == v@[k as int]);
                assert(walk(at, w.take(k - lo + 1)) == step(walk(at, w.take(k - lo)), v@[k as int]));
            }
            self.advance(v[k]);
            k = k + 1;
        }
        proof {
            assert(w.take(hi - lo) =~= w);
        }
    }

    /// Skip whitespace and comments at the start of `input`, returning the
    /// number of characters consumed
    pub fn skip_whitespace_and_comments(&mut self, input: &str) -> (consumed: usize)
        requires
            walk_fits(old(self)@, input@.take(trivia_end(input@, 0))),
        ensures
            consumed == trivia_end(input@, 0),
            final(self)@ == walk(old(self)@, input@.take(consumed as int)),
            lua_trivia(input@, 0, consumed as int),
            consumed < input@.len() ==> !unicode_white_space(input@[consumed as int]) && !occurs_at(
                input@,
                consumed as int,
                "--"@,
            ),
    {
        proof {
            lemma_trivia_end_run(input@, 0);
        }
        let v = chars_of(input);
        let ghost s = input@;
        let ghost at = self@;
        proof {
            lemma_trivia_end(s, 0);
            assert(s.take(0) =~= Seq::<char>::empty());
        }
        let mut k: usize = 0;
        loop
            invariant
                v@ == s,
                k <= trivia_end(s, 0) <= s.len(),
                trivia_end(s, 0) == trivia_end(s, k as int),
                walk_fits(at, s.take(trivia_end(s, 0))),
                self@ == walk(at, s.take(k as int)),
            ensures
                k == trivia_end(s, 0),
                self@ == walk(at, s.take(trivia_end(s, 0))),
            decreases s.len() - k,
        {
            if k >= v.len() {
                break;
            }
            let next: usize;
            if chars_occur_at(&v, k, "--") {
                proof {
                    lemma_find_char(s, k as int, '\n');
                }
                match find_char_from(&v, k, '\n') {
                    Some(n) => {
                        next = n + 1;
                    },
                    None => {
                        next = v.len();
                    },
                }
            } else if char_is_whitespace(v[k]) {
                next = k + 1;
            } else {
                break;
            }
            proof {
                lemma_trivia_end(s, next as int);
                lemma_walk_fits_prefix(at, s.take(trivia_end(s, 0)), next as int);
                assert(s.take(trivia_end(s, 0)).take(next as int) =~= s.take(next as int));
            }
            let mut m = k;
            while m < next
                invariant
                    k <= m <= next <= s.len(),
                    v@ == s,
                    walk_fits(at, s.take(next as int)),
                    self@ == walk(at, s.take(m as int)),
                decreases next - m,
            {
                proof {
                    lemma_walk_step(at, s, next as int, m as int);
                }
                self.advance(v[m]);
                m = m + 1;
            }
            k = next;
        }
        k
    }
}

impl Default for LocationTracker {
    fn default() -> (t: Self)
        ensures
            t@ == (1int, 0int),
    {
        Self::new()
    }
}

} // verus!
