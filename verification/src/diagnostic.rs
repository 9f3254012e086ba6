use vstd::prelude::*;
use crate::grammar::{spec_line, spec_line_end, spec_line_start};
use crate::scan::{Expected, Source};

verus! {

/// Why a source text is not in the language: the furthest position at which
/// the grammar asked for a token that was not there.
#[derive(Debug, PartialEq, Eq)]
pub struct ParseError {
    /// The position, counted in characters from 0.
    pub offset: usize,
    /// The line of that position, counted from 1.
    pub line: usize,
    /// The column of that position in its line, counted from 1.
    pub column: usize,
    /// The kinds of token that the grammar asked for there.
    pub expected: Expected,
    /// The text of that line, without its line feed.
    pub snippet: String,
}

/// `x` as a machine integer, or the largest one where `x` does not fit.
pub open spec fn capped(x: int) -> usize {
    if x > usize::MAX {
        usize::MAX
    } else if x < 0 {
        0
    } else {
        x as usize
    }
}

impl ParseError {
    /// Line, column and snippet are those of `offset` in `s`.
    pub open spec fn locates(&self, s: Seq<char>) -> bool {
        &&& self.offset <= s.len()
        &&& self.line == capped(spec_line(s, self.offset as int))
        &&& self.column == capped(self.offset - spec_line_start(s, self.offset as int) + 1)
        &&& self.snippet@ == s.subrange(
            spec_line_start(s, self.offset as int),
            spec_line_end(s, self.offset as int),
        )
    }
}

/// The 1-based line of position `p`.
pub fn line_of(src: &Source, p: usize) -> (n: usize)
    requires
        p <= src@.len(),
    ensures
        n == capped(spec_line(src@, p as int)),
{
    let mut n: usize = 1;
    let mut i: usize = 0;
    while i < p
        invariant
            i <= p <= src@.len(),
            n == capped(spec_line(src@, i as int)),
            spec_line(src@, i as int) >= 1,
        decreases p - i,
    {
        if src.chars[i] == '\n' && n < usize::MAX {
            n += 1;
        }
        i += 1;
    }
    n
}

/// Where the line that holds position `p` starts.
pub fn line_start(src: &Source, p: usize) -> (a: usize)
    requires
        p <= src@.len(),
    ensures
        a == spec_line_start(src@, p as int),
        a <= p,
{
    let mut a: usize = p;
    while a > 0 && src.chars[a - 1] != '\n'
        invariant
            a <= p <= src@.len(),
            spec_line_start(src@, a as int) == spec_line_start(src@, p as int),
        decreases a,
    {
        a -= 1;
    }
    a
}

/// Where the line that holds position `p` ends.
pub fn line_end(src: &Source, p: usize) -> (b: usize)
    requires
        p <= src@.len(),
    ensures
        b == spec_line_end(src@, p as int),
        p <= b <= src@.len(),
{
    let mut b: usize = p;
    while b < src.chars.len() && src.chars[b] != '\n'
        invariant
            p <= b <= src@.len(),
            spec_line_end(src@, b as int) == spec_line_end(src@, p as int),
        decreases src@.len() - b,
    {
        b += 1;
    }
    b
}

/// The diagnostic for a failure at `offset`.
pub fn error_at(src: &Source, offset: usize, expected: Expected) -> (e: ParseError)
    requires
        src.wf(),
        offset <= src@.len(),
    ensures
        e.offset == offset,
        e.expected == expected,
        e.locates(src@),
{
    let a: usize = line_start(src, offset);
    let b: usize = line_end(src, offset);
    let width: usize = offset - a;
    let column: usize = if width < usize::MAX {
        width + 1
    } else {
        usize::MAX
    };
    ParseError { offset, line: line_of(src, offset), column, expected, snippet: src.slice(a, b) }
}

} // verus!
