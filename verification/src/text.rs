//! Character-level text helpers.
//!
//! Everything the engine reads out of comment text is decided here: the
//! fixed suppression-keyword match (a full-line match, not a substring
//! search), the ignore-directive keyword with its whitespace-separated
//! rule-code list, and the lexicographic order on rule codes that the
//! runner's final sort uses.

use vstd::prelude::*;
use vstd::string::StrSliceExecFns;

verus! {

/// The whitespace class used by the comment grammar: space, tab, newline,
/// carriage return, vertical tab and form feed.
pub open spec fn is_ws_char(c: char) -> bool {
    c == ' ' || c == '\t' || c == '\n' || c == '\r' || c == '\u{b}' || c == '\u{c}'
}

pub fn is_ws(c: char) -> (r: bool)
    ensures
        r == is_ws_char(c),
{
    c == ' ' || c == '\t' || c == '\n' || c == '\r' || c == '\u{b}' || c == '\u{c}'
}

/// The first index at or after `i` holding a non-whitespace character
/// (or the length of `s` if there is none).
pub open spec fn spec_skip_ws(s: Seq<char>, i: int) -> int
    decreases s.len() - i,
{
    if i < 0 || i >= s.len() {
        i
    } else if is_ws_char(s[i]) {
        spec_skip_ws(s, i + 1)
    } else {
        i
    }
}

/// Returns the first non-whitespace index of `s` at or after `i`.
pub fn skip_ws(s: &str, i: usize) -> (r: usize)
    requires
        i <= s@.len(),
    ensures
        r == spec_skip_ws(s@, i as int),
        i <= r <= s@.len(),
{
    let n = s.unicode_len();
    let mut j = i;
    while j < n && is_ws(s.get_char(j))
        invariant
            i <= j <= n,
            n == s@.len(),
            spec_skip_ws(s@, j as int) == spec_skip_ws(s@, i as int),
        decreases n - j,
    {
        j = j + 1;
    }
    j
}

/// Returns whether the suffix of `s` that starts at `from` is exactly
/// `lit`.
pub fn suffix_eq(s: &str, from: usize, lit: &str) -> (r: bool)
    requires
        from <= s@.len(),
    ensures
        r == (s@.subrange(from as int, s@.len() as int) == lit@),
{
    let n = s.unicode_len();
    let m = lit.unicode_len();
    if n - from != m {
        assert(s@.subrange(from as int, s@.len() as int).len() != lit@.len());
        return false;
    }
    let mut j: usize = 0;
    while j < m
        invariant
            0 <= j <= m,
            n == s@.len(),
            m == lit@.len(),
            from + m == n,
            forall|k: int| 0 <= k < j ==> s@[from + k] == lit@[k],
        decreases m - j,
    {
        if s.get_char(from + j) != lit.get_char(j) {
            assert(s@.subrange(from as int, s@.len() as int)[j as int] != lit@[j as int]);
            return false;
        }
        j = j + 1;
    }
    assert(s@.subrange(from as int, s@.len() as int) =~= lit@);
    true
}

/// A directive-like suppression comment: optional leading whitespace, then
/// one of the three recognized suppression keywords, then the end of the
/// comment.  Keywords buried in prose or followed by further text do not
/// match.
pub open spec fn spec_is_ts_directive(s: Seq<char>) -> bool {
    let rest = s.subrange(spec_skip_ws(s, 0), s.len() as int);
    rest == "@ts-expect-error"@ || rest == "@ts-ignore"@ || rest == "@ts-nocheck"@
}

/// Returns whether comment text `s` is a bare suppression-keyword line.
pub fn is_ts_directive(s: &str) -> (r: bool)
    ensures
        r == spec_is_ts_directive(s@),
{
    let i = skip_ws(s, 0);
    if suffix_eq(s, i, "@ts-expect-error") {
        true
    } else if suffix_eq(s, i, "@ts-ignore") {
        true
    } else {
        suffix_eq(s, i, "@ts-nocheck")
    }
}

/// Closes the token accumulator: a partial token becomes a singleton list,
/// an empty accumulator nothing.
pub open spec fn close_token(cur: Seq<char>) -> Seq<Seq<char>> {
    if cur.len() == 0 {
        Seq::empty()
    } else {
        seq![cur]
    }
}

/// The whitespace-separated tokens of `s` from index `i` on, with `cur`
/// the partial token read so far.
pub open spec fn spec_tokens_acc(s: Seq<char>, i: int, cur: Seq<char>) -> Seq<Seq<char>>
    decreases s.len() - i,
{
    if i < 0 || i >= s.len() {
        close_token(cur)
    } else if is_ws_char(s[i]) {
        close_token(cur) + spec_tokens_acc(s, i + 1, Seq::empty())
    } else {
        spec_tokens_acc(s, i + 1, cur.push(s[i]))
    }
}

/// The whitespace-separated tokens of `s` from index `i` on.
pub open spec fn spec_tokens(s: Seq<char>, i: int) -> Seq<Seq<char>> {
    spec_tokens_acc(s, i, Seq::empty())
}

/// Splits `s`, from index `start` on, into its whitespace-separated
/// tokens.
pub fn parse_tokens(s: &str, start: usize) -> (toks: Vec<Vec<char>>)
    requires
        start <= s@.len(),
    ensures
        toks.deep_view() == spec_tokens(s@, start as int),
{
    let n = s.unicode_len();
    let mut toks: Vec<Vec<char>> = Vec::new();
    let mut cur: Vec<char> = Vec::new();
    let mut j = start;
    while j < n
        invariant
            start <= j <= n,
            n == s@.len(),
            toks.deep_view() + spec_tokens_acc(s@, j as int, cur@)
                == spec_tokens(s@, start as int),
        decreases n - j,
    {
        let ghost t0 = toks.deep_view();
        let ghost c0 = cur@;
        let c = s.get_char(j);
        if is_ws(c) {
            if cur.len() > 0 {
                toks.push(cur);
                cur = Vec::new();
                assert(toks.deep_view() =~~= t0 + seq![c0]);
                assert((t0 + seq![c0]) + spec_tokens_acc(s@, j + 1, Seq::empty())
                    =~~= t0 + (close_token(c0) + spec_tokens_acc(s@, j + 1, Seq::empty())));
            } else {
                assert(c0 =~= Seq::empty());
                assert(t0 + (close_token(c0) + spec_tokens_acc(s@, j + 1, Seq::empty()))
                    =~~= t0 + spec_tokens_acc(s@, j + 1, Seq::empty()));
            }
            assert(spec_tokens_acc(s@, j as int, c0)
                == close_token(c0) + spec_tokens_acc(s@, j + 1, Seq::empty()));
        } else {
            cur.push(c);
        }
        j = j + 1;
    }
    if cur.len() > 0 {
        let ghost t1 = toks.deep_view();
        toks.push(cur);
        assert(toks.deep_view() =~~= t1 + close_token(cur@));
    } else {
        assert(toks.deep_view() =~~= toks.deep_view() + close_token(cur@));
    }
    toks
}

/// The keyword `kw` stands at index `i` of `s` on a word boundary: the
/// text ends right after it or whitespace follows it.
pub open spec fn spec_kw_at(s: Seq<char>, i: int, kw: Seq<char>) -> bool {
    &&& i + kw.len() <= s.len()
    &&& s.subrange(i, i + kw.len()) == kw
    &&& (i + kw.len() == s.len() || is_ws_char(s[i + kw.len()]))
}

/// Returns whether keyword `kw` stands at index `i` of `s` on a word
/// boundary.
pub fn kw_at(s: &str, i: usize, kw: &str) -> (r: bool)
    requires
        i <= s@.len(),
    ensures
        r == spec_kw_at(s@, i as int, kw@),
{
    let n = s.unicode_len();
    let m = kw.unicode_len();
    if n - i < m {
        return false;
    }
    let mut j: usize = 0;
    while j < m
        invariant
            0 <= j <= m,
            n == s@.len(),
            m == kw@.len(),
            i + m <= n,
            forall|k: int| 0 <= k < j ==> s@[i + k] == kw@[k],
        decreases m - j,
    {
        if s.get_char(i + j) != kw.get_char(j) {
            assert(s@.subrange(i as int, i + m)[j as int] != kw@[j as int]);
            return false;
        }
        j = j + 1;
    }
    assert(s@.subrange(i as int, i + m) =~= kw@);
    if i + m == n {
        true
    } else {
        is_ws(s.get_char(i + m))
    }
}

/// An ignore directive: optional leading whitespace, then the directive
/// keyword on a word boundary.
pub open spec fn spec_is_ignore_directive(s: Seq<char>) -> bool {
    spec_kw_at(s, spec_skip_ws(s, 0), "deno-lint-ignore"@)
}

/// The rule codes of an ignore directive: the whitespace-separated tokens
/// after the directive keyword.
pub open spec fn spec_directive_codes(s: Seq<char>) -> Seq<Seq<char>> {
    spec_tokens(s, spec_skip_ws(s, 0) + "deno-lint-ignore"@.len())
}

/// Returns whether character list `v` spells exactly the text `s`.
pub fn chars_eq(v: &Vec<char>, s: &str) -> (r: bool)
    ensures
        r == (v@ == s@),
{
    let m = s.unicode_len();
    if v.len() != m {
        return false;
    }
    let mut j: usize = 0;
    while j < m
        invariant
            0 <= j <= m,
            m == s@.len(),
            v@.len() == m,
            forall|k: int| 0 <= k < j ==> v@[k] == s@[k],
        decreases m - j,
    {
        if v[j] != s.get_char(j) {
            return false;
        }
        j = j + 1;
    }
    assert(v@ =~= s@);
    true
}

/// Returns whether two texts are equal character for character.
pub fn str_eq(a: &str, b: &str) -> (r: bool)
    ensures
        r == (a@ == b@),
{
    let r = suffix_eq(a, 0, b);
    proof {
        assert(a@.subrange(0, a@.len() as int) =~= a@);
    }
    r
}

/// Lexicographic order on character sequences, decided from index `i` on.
pub open spec fn spec_lex_le_from(a: Seq<char>, b: Seq<char>, i: int) -> bool
    decreases a.len() - i,
{
    if i < 0 || i >= a.len() {
        true
    } else if i >= b.len() {
        false
    } else if (a[i] as u32) < (b[i] as u32) {
        true
    } else if (a[i] as u32) > (b[i] as u32) {
        false
    } else {
        spec_lex_le_from(a, b, i + 1)
    }
}

/// Lexicographic order on character sequences (a prefix sorts first).
pub open spec fn spec_lex_le(a: Seq<char>, b: Seq<char>) -> bool {
    spec_lex_le_from(a, b, 0)
}

/// Lexicographic order is total: of any two character sequences, one
/// sorts at or before the other.
pub proof fn lemma_lex_le_total(a: Seq<char>, b: Seq<char>)
    ensures
        spec_lex_le(a, b) || spec_lex_le(b, a),
{
    lemma_lex_le_from_total(a, b, 0);
}

proof fn lemma_lex_le_from_total(a: Seq<char>, b: Seq<char>, i: int)
    ensures
        spec_lex_le_from(a, b, i) || spec_lex_le_from(b, a, i),
    decreases a.len() - i,
{
    if 0 <= i && i < a.len() && i < b.len() && (a[i] as u32) == (b[i] as u32) {
        lemma_lex_le_from_total(a, b, i + 1);
    }
}

/// Lexicographic order is transitive.
pub proof fn lemma_lex_le_trans(a: Seq<char>, b: Seq<char>, c: Seq<char>)
    requires
        spec_lex_le(a, b),
        spec_lex_le(b, c),
    ensures
        spec_lex_le(a, c),
{
    lemma_lex_le_from_trans(a, b, c, 0);
}

proof fn lemma_lex_le_from_trans(a: Seq<char>, b: Seq<char>, c: Seq<char>, i: int)
    requires
        spec_lex_le_from(a, b, i),
        spec_lex_le_from(b, c, i),
    ensures
        spec_lex_le_from(a, c, i),
    decreases a.len() - i,
{
    if 0 <= i && i < a.len() {
        if i < b.len() && i < c.len() && (a[i] as u32) == (b[i] as u32) && (b[i] as u32) == (c[i] as u32) {
            lemma_lex_le_from_trans(a, b, c, i + 1);
        }
    }
}

/// Returns whether `a` sorts at or before `b` in lexicographic order.
pub fn lex_le(a: &str, b: &str) -> (r: bool)
    ensures
        r == spec_lex_le(a@, b@),
{
    let n = a.unicode_len();
    let m = b.unicode_len();
    let mut j: usize = 0;
    while j < n
        invariant
            0 <= j <= n,
            n == a@.len(),
            m == b@.len(),
            spec_lex_le_from(a@, b@, j as int) == spec_lex_le(a@, b@),
        decreases n - j,
    {
        if j >= m {
            return false;
        }
        let ca = a.get_char(j) as u32;
        let cb = b.get_char(j) as u32;
        if ca < cb {
            return true;
        }
        if ca > cb {
            return false;
        }
        j = j + 1;
    }
    true
}

} // verus!
