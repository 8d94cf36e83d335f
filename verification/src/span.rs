//! Byte spans and the line table.
//!
//! A `Span` is a half-open byte range `[lo, hi)` into the original source
//! text; it is the unit of location for comments, directives and
//! diagnostics alike.  A line table is the ascending list of byte offsets
//! at which each source line begins; it turns a byte position into a line
//! number, which the suppression engine needs for line-scoped directives.

use vstd::prelude::*;

verus! {

/// A half-open byte range `[lo, hi)` into the source text.
#[derive(Clone, Copy, PartialEq, Eq, Structural, Debug)]
pub struct Span {
    pub lo: usize,
    pub hi: usize,
}

impl Span {
    pub fn new(lo: usize, hi: usize) -> (s: Span)
        ensures
            s.lo == lo,
            s.hi == hi,
    {
        Span { lo, hi }
    }
}

/// The line starts of a source text: offset 0, then one entry right after
/// every newline byte, in ascending order.
pub open spec fn spec_newline_starts(src: Seq<u8>, i: int) -> Seq<usize>
    decreases src.len() - i,
{
    if i < 0 || i >= src.len() {
        Seq::empty()
    } else if src[i] == 10u8 {
        seq![(i + 1) as usize] + spec_newline_starts(src, i + 1)
    } else {
        spec_newline_starts(src, i + 1)
    }
}

pub open spec fn spec_line_starts(src: Seq<u8>) -> Seq<usize> {
    seq![0usize] + spec_newline_starts(src, 0)
}

/// Builds the line table of a source text: entry 0, then the offset just
/// after each newline byte.
pub fn compute_line_starts(src: &Vec<u8>) -> (starts: Vec<usize>)
    ensures
        starts@ == spec_line_starts(src@),
{
    let mut starts: Vec<usize> = Vec::new();
    starts.push(0);
    let mut i: usize = 0;
    while i < src.len()
        invariant
            0 <= i <= src@.len(),
            starts@ + spec_newline_starts(src@, i as int) == spec_line_starts(src@),
        decreases src@.len() - i,
    {
        if src[i] == 10u8 {
            starts.push(i + 1);
        }
        i = i + 1;
    }
    starts
}

/// The zero-based line index holding byte position `pos`, read off a line
/// table `ls`: the last entry at index `>= from` whose start is still
/// `<= pos`, assuming `ls[from] <= pos`.
pub open spec fn spec_line_from(ls: Seq<usize>, from: int, pos: int) -> int
    decreases ls.len() - from,
{
    if from < 0 || from >= ls.len() {
        from
    } else if from + 1 >= ls.len() || pos < ls[from + 1] {
        from
    } else {
        spec_line_from(ls, from + 1, pos)
    }
}

/// The zero-based line index of byte position `pos`.
pub open spec fn spec_line_of(ls: Seq<usize>, pos: int) -> int {
    spec_line_from(ls, 0, pos)
}

/// Returns the zero-based line index of byte position `pos` in line table
/// `ls`.
pub fn line_of(ls: &Vec<usize>, pos: usize) -> (line: usize)
    requires
        ls@.len() > 0,
    ensures
        line == spec_line_of(ls@, pos as int),
{
    let n = ls.len();
    let mut i: usize = 0;
    while i < n - 1 && ls[i + 1] <= pos
        invariant
            0 <= i < ls@.len(),
            n == ls@.len(),
            spec_line_from(ls@, i as int, pos as int) == spec_line_of(ls@, pos as int),
        decreases ls@.len() - i,
    {
        i = i + 1;
    }
    i
}

/// Returns the one-based line number and the zero-based column of byte
/// position `pos`, read off line table `ls`.
pub fn line_col(ls: &Vec<usize>, pos: usize) -> (lc: (usize, usize))
    requires
        ls@.len() > 0,
        ls@[0] <= pos,
    ensures
        lc.0 == spec_line_of(ls@, pos as int) + 1,
        lc.1 == pos - ls@[spec_line_of(ls@, pos as int)],
        ({
            let l = spec_line_of(ls@, pos as int);
            0 <= l < ls@.len() && ls@[l] <= pos
        }),
    {
        let line = line_of(ls, pos);
        proof {
            lemma_line_from_bounds(ls@, 0, pos as int);
        }
        let n = ls.len();
        assert(line < n);
        let start = ls[line];
        assert(start <= pos);
        (line + 1, pos - start)
    }

/// The line index that `spec_line_from` returns stays inside the table,
/// and where the search started at an entry `<= pos` the entry found is
/// still `<= pos`.
pub proof fn lemma_line_from_bounds(ls: Seq<usize>, from: int, pos: int)
    requires
        0 <= from < ls.len(),
    ensures
        from <= spec_line_from(ls, from, pos) < ls.len(),
        ls[from] <= pos ==> ls[spec_line_from(ls, from, pos)] <= pos,
    decreases ls.len() - from,
{
    if from + 1 >= ls.len() || pos < ls[from + 1] {
    } else {
        lemma_line_from_bounds(ls, from + 1, pos);
    }
}

} // verus!
