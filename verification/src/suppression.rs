//! The suppression engine.
//!
//! Reconciles the raw diagnostic list against the directive index: a
//! file-level directive suppresses across the whole module, a line-level
//! directive suppresses the line after its own, and in either case an
//! empty code list suppresses every rule while a non-empty one suppresses
//! the named codes only.  A suppressed diagnostic disappears without a
//! trace; directives themselves are never suppressed by other directives.

use vstd::prelude::*;
use crate::diagnostics::{Diagnostic, DiagnosticView};
use crate::directives::{IgnoreDirective, IgnoreDirectiveView, DirectiveScope};
use crate::span::{spec_line_of, line_of, lemma_line_from_bounds};
use crate::text::chars_eq;

verus! {

/// Whether one directive suppresses one diagnostic: a file-level
/// directive applies anywhere, a line-level one only to diagnostics whose
/// span starts on the line after the directive's own; an empty code list
/// suppresses every code, a non-empty one only its members.
pub open spec fn spec_applies(dir: IgnoreDirectiveView, d: DiagnosticView, ls: Seq<usize>) -> bool {
    match dir.scope {
        DirectiveScope::FileLevel => dir.codes.len() == 0 || dir.codes.contains(d.code),
        DirectiveScope::LineLevel => {
            &&& spec_line_of(ls, d.span.lo as int) == spec_line_of(ls, dir.span.lo as int) + 1
            &&& (dir.codes.len() == 0 || dir.codes.contains(d.code))
        },
    }
}

/// Whether any directive of the index suppresses the diagnostic.
pub open spec fn spec_suppressed(d: DiagnosticView, dirs: Seq<IgnoreDirectiveView>, ls: Seq<usize>) -> bool {
    exists|i: int| 0 <= i < dirs.len() && spec_applies(dirs[i], d, ls)
}

/// The filtered diagnostic list: the raw list with every suppressed
/// diagnostic dropped, order kept.
pub open spec fn spec_filter_diags(
    ds: Seq<DiagnosticView>,
    dirs: Seq<IgnoreDirectiveView>,
    ls: Seq<usize>,
) -> Seq<DiagnosticView>
    decreases ds.len(),
{
    if ds.len() == 0 {
        Seq::empty()
    } else {
        spec_filter_diags(ds.drop_last(), dirs, ls) + (if spec_suppressed(ds.last(), dirs, ls) {
            Seq::empty()
        } else {
            seq![ds.last()]
        })
    }
}

/// Returns whether the directive's code list names the diagnostic code
/// `code` (an empty list names none).
fn codes_contain(codes: &Vec<Vec<char>>, code: &str) -> (r: bool)
    ensures
        r == codes.deep_view().contains(code@),
{
    let mut i: usize = 0;
    while i < codes.len()
        invariant
            0 <= i <= codes@.len(),
            forall|k: int| 0 <= k < i ==> codes.deep_view()[k] != code@,
        decreases codes@.len() - i,
    {
        if chars_eq(&codes[i], code) {
            proof {
                assert(codes.deep_view()[i as int] =~= codes@[i as int]@);
                assert(codes.deep_view()[i as int] == code@);
            }
            return true;
        }
        proof {
            assert(codes.deep_view()[i as int] =~= codes@[i as int]@);
        }
        i = i + 1;
    }
    false
}

/// Returns whether `dir` suppresses `d` under line table `ls`.
fn applies(dir: &IgnoreDirective, d: &Diagnostic, ls: &Vec<usize>) -> (r: bool)
    requires
        ls@.len() > 0,
    ensures
        r == spec_applies(dir@, d@, ls@),
{
    let code_ok = dir.codes.len() == 0 || codes_contain(&dir.codes, d.code.as_str());
    match dir.scope {
        DirectiveScope::FileLevel => code_ok,
        DirectiveScope::LineLevel => {
            if !code_ok {
                return false;
            }
            let dl = line_of(ls, d.span.lo);
            let rl = line_of(ls, dir.span.lo);
            proof {
                lemma_line_from_bounds(ls@, 0, dir.span.lo as int);
            }
            let nl = ls.len();
            assert(rl < nl);
            dl == rl + 1
        },
    }
}

/// Returns whether any directive of the index suppresses `d`.
fn is_suppressed(d: &Diagnostic, dirs: &Vec<IgnoreDirective>, ls: &Vec<usize>) -> (r: bool)
    requires
        ls@.len() > 0,
    ensures
        r == spec_suppressed(d@, dirs.deep_view(), ls@),
{
    let mut i: usize = 0;
    while i < dirs.len()
        invariant
            0 <= i <= dirs@.len(),
            ls@.len() > 0,
            forall|k: int| 0 <= k < i ==> !spec_applies(dirs.deep_view()[k], d@, ls@),
        decreases dirs@.len() - i,
    {
        if applies(&dirs[i], d, ls) {
            proof {
                assert(dirs.deep_view()[i as int] == dirs@[i as int]@);
                assert(spec_applies(dirs.deep_view()[i as int], d@, ls@));
            }
            return true;
        }
        proof {
            assert(dirs.deep_view()[i as int] == dirs@[i as int]@);
        }
        i = i + 1;
    }
    false
}

/// Filters the raw diagnostic list against the directive index, keeping
/// order; suppression leaves no trace in the output.
pub fn filter_diagnostics(ds: Vec<Diagnostic>, dirs: &Vec<IgnoreDirective>, ls: &Vec<usize>) -> (out: Vec<Diagnostic>)
    requires
        ls@.len() > 0,
    ensures
        out.deep_view() == spec_filter_diags(ds.deep_view(), dirs.deep_view(), ls@),
{
    let ghost orig = ds.deep_view();
    let mut out: Vec<Diagnostic> = Vec::new();
    let n = ds.len();
    let mut rest = ds;
    let mut i: usize = 0;
    while i < n
        invariant
            0 <= i <= n,
            n == orig.len(),
            ls@.len() > 0,
            rest@.len() == n - i,
            rest.deep_view() =~= orig.subrange(i as int, n as int),
            out.deep_view() == spec_filter_diags(orig.subrange(0, i as int), dirs.deep_view(), ls@),
        decreases n - i,
    {
        let ghost r0 = rest.deep_view();
        let ghost rv0 = rest@;
        let d = rest.remove(0);
        proof {
            assert(r0[0] == orig[i as int]);
            assert(d.deep_view() == r0[0]);
            assert(rest@ =~= rv0.subrange(1, rv0.len() as int));
            assert forall|k: int| 0 <= k < rest@.len()
                implies #[trigger] rest.deep_view()[k] == orig[i + 1 + k] by {
                assert(rest@[k] == rv0[k + 1]);
                assert(rest.deep_view()[k] == rest@[k].deep_view());
                assert(r0[k + 1] == rv0[k + 1].deep_view());
                assert(r0[k + 1] == orig[i + 1 + k]);
            }
            assert(rest.deep_view() =~~= orig.subrange(i as int + 1, n as int));
            assert(orig.subrange(0, i as int + 1).drop_last() =~= orig.subrange(0, i as int));
            assert(orig.subrange(0, i as int + 1).last() == orig[i as int]);
        }
        let ghost o0 = out.deep_view();
        let suppressed = is_suppressed(&d, dirs, ls);
        if !suppressed {
            out.push(d);
            proof {
                assert(out.deep_view() =~~= o0.push(orig[i as int]));
                assert(o0.push(orig[i as int])
                    =~= spec_filter_diags(orig.subrange(0, i as int), dirs.deep_view(), ls@)
                        + seq![orig[i as int]]);
            }
        } else {
            proof {
                assert(spec_filter_diags(orig.subrange(0, i as int + 1), dirs.deep_view(), ls@)
                    =~= spec_filter_diags(orig.subrange(0, i as int), dirs.deep_view(), ls@));
            }
        }
        i = i + 1;
    }
    proof {
        assert(orig.subrange(0, n as int) =~= orig);
    }
    out
}

/// Suppression correctness: a diagnostic stands in the filtered list
/// exactly when it stands in the raw list and no applicable directive —
/// file-level, or line-level anchored one line above it — has an empty
/// code list or one containing its code.
pub proof fn lemma_suppression_correct(
    ds: Seq<DiagnosticView>,
    dirs: Seq<IgnoreDirectiveView>,
    ls: Seq<usize>,
)
    ensures
        forall|d: DiagnosticView| #[trigger] spec_filter_diags(ds, dirs, ls).contains(d)
            <==> (ds.contains(d) && !spec_suppressed(d, dirs, ls)),
    decreases ds.len(),
{
    if ds.len() == 0 {
        assert forall|d: DiagnosticView| !(#[trigger] ds.contains(d)) by {
            assert(ds.len() == 0);
        }
    } else {
        lemma_suppression_correct(ds.drop_last(), dirs, ls);
        let pre = spec_filter_diags(ds.drop_last(), dirs, ls);
        let full = spec_filter_diags(ds, dirs, ls);
        assert forall|d: DiagnosticView|
            #[trigger] full.contains(d) <==> (ds.contains(d) && !spec_suppressed(d, dirs, ls)) by {
            if full.contains(d) {
                let j = choose|j: int| 0 <= j < full.len() && full[j] == d;
                if j < pre.len() {
                    assert(pre.contains(d));
                    assert(ds.drop_last().contains(d));
                    let k = choose|k: int| 0 <= k < ds.drop_last().len() && ds.drop_last()[k] == d;
                    assert(ds[k] == d);
                    assert(ds.contains(d));
                } else {
                    assert(!spec_suppressed(ds.last(), dirs, ls));
                    assert(d == ds.last());
                    assert(ds[ds.len() - 1] == d);
                    assert(ds.contains(d));
                }
            }
            if ds.contains(d) && !spec_suppressed(d, dirs, ls) {
                let k = choose|k: int| 0 <= k < ds.len() && ds[k] == d;
                if k < ds.len() - 1 {
                    assert(ds.drop_last()[k] == d);
                    assert(ds.drop_last().contains(d));
                    assert(pre.contains(d));
                    let j = choose|j: int| 0 <= j < pre.len() && pre[j] == d;
                    assert(full[j] == d);
                    assert(full.contains(d));
                } else {
                    assert(ds.last() == d);
                    assert(full[full.len() - 1] == d);
                    assert(full.contains(d));
                }
            }
        }
    }
}

} // verus!
