//! Positions in source text.
//!
//! A `Location` is `(source, line, column)`: `source` indexes the driver's
//! ordered list of resolved file paths, and line and column are 1-based and
//! counted in characters over that file's text. A location is computed from
//! a character offset with a line/column index over the text.

use vstd::prelude::*;
use crate::chars::push_char;
use crate::decimal::push_u64_dec;
use crate::decimal::spec_udec;

verus! {

#[derive(Debug, Clone, Copy, PartialEq, Eq, Structural)]
pub struct Location {
    pub source: usize,
    pub line: usize,
    pub column: usize,
}

/// The number of newline characters in `s`.
pub open spec fn spec_newline_count(s: Seq<char>) -> int
    decreases s.len(),
{
    if s.len() == 0 {
        0
    } else {
        spec_newline_count(s.drop_last()) + if s.last() == '\n' {
            1int
        } else {
            0int
        }
    }
}

/// The 1-based line number of character offset `pos` in `s`: one more than
/// the number of newlines before it.
pub open spec fn spec_line_of(s: Seq<char>, pos: int) -> int {
    1 + spec_newline_count(s.take(pos))
}

/// The offset of the first character of the line holding offset `pos`:
/// the offset just past the last newline before `pos`.
pub open spec fn spec_line_start(s: Seq<char>, pos: int) -> int
    decreases pos,
{
    if pos <= 0 {
        0
    } else if s[pos - 1] == '\n' {
        pos
    } else {
        spec_line_start(s, pos - 1)
    }
}

/// The 1-based column of character offset `pos` in `s`.
pub open spec fn spec_col_of(s: Seq<char>, pos: int) -> int {
    pos - spec_line_start(s, pos) + 1
}

/// The location of character offset `pos` of the source numbered `src`.
pub open spec fn spec_loc(src: int, s: Seq<char>, pos: int) -> Location {
    Location {
        source: src as usize,
        line: spec_line_of(s, pos) as usize,
        column: spec_col_of(s, pos) as usize,
    }
}

proof fn lemma_newline_count_bounds(s: Seq<char>)
    ensures
        0 <= spec_newline_count(s) <= s.len(),
    decreases s.len(),
{
    if s.len() > 0 {
        lemma_newline_count_bounds(s.drop_last());
    }
}

proof fn lemma_line_start_bounds(s: Seq<char>, pos: int)
    requires
        pos >= 0,
    ensures
        0 <= spec_line_start(s, pos) <= pos,
    decreases pos,
{
    if pos > 0 && s[pos - 1] != '\n' {
        lemma_line_start_bounds(s, pos - 1);
    }
}

/// Computes the 1-based line and column of character offset `pos` in the
/// text `chars` by walking the prefix before `pos`.
pub fn line_and_col_of(chars: &Vec<char>, pos: usize, source: usize) -> (l: Location)
    requires
        pos <= chars@.len(),
        chars@.len() < usize::MAX,
    ensures
        l == spec_loc(source as int, chars@, pos as int),
{
    let mut line: usize = 1;
    let mut start: usize = 0;
    let mut i: usize = 0;
    while i < pos
        invariant
            i <= pos <= chars@.len() < usize::MAX,
            start <= i,
            line <= i + 1,
            line == spec_line_of(chars@, i as int),
            start == spec_line_start(chars@, i as int),
        decreases pos - i,
    {
        proof {
            assert(chars@.take(i + 1).drop_last() =~= chars@.take(i as int));
            assert(chars@.take(i + 1).last() == chars@[i as int]);
        }
        if chars[i] == '\n' {
            line = line + 1;
            start = i + 1;
        }
        i = i + 1;
    }
    proof {
        lemma_line_start_bounds(chars@, pos as int);
    }
    Location { source, line, column: pos - start + 1 }
}

/// The text of a location in error messages:
/// `line <line>, column <column> of source <source>`.
pub open spec fn spec_loc_text(l: Location) -> Seq<char> {
    "line "@ + spec_udec(l.line as nat) + ", column "@ + spec_udec(l.column as nat)
        + " of source "@ + spec_udec(l.source as nat)
}

impl Location {
    /// Renders the location for error messages.
    pub fn render(&self) -> (s: String)
        ensures
            s@ == spec_loc_text(*self),
    {
        let mut s = String::new();
        append_lit(&mut s, "line ");
        push_u64_dec(&mut s, self.line as u64);
        append_lit(&mut s, ", column ");
        push_u64_dec(&mut s, self.column as u64);
        append_lit(&mut s, " of source ");
        push_u64_dec(&mut s, self.source as u64);
        assert(s@ =~= spec_loc_text(*self));
        s
    }
}

/// Appends a literal to a string under construction.
pub fn append_lit(out: &mut String, lit: &str)
    ensures
        final(out)@ == old(out)@ + lit@,
{
    let n = lit.unicode_len();
    let mut i: usize = 0;
    while i < n
        invariant
            n == lit@.len(),
            i <= n,
            out@ == old(out)@ + lit@.take(i as int),
        decreases n - i,
    {
        let c = lit.get_char(i);
        push_char(out, c);
        proof {
            assert(lit@.take(i + 1).drop_last() =~= lit@.take(i as int));
            assert(out@ =~= old(out)@ + lit@.take(i + 1));
        }
        i = i + 1;
    }
    proof {
        assert(lit@.take(n as int) =~= lit@);
    }
}

} // verus!
