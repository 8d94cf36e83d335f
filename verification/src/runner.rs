//! The rule registry and the runner.
//!
//! The registry holds the catalog of available rules, each addressable
//! by its unique code and its tag set; a run selects every rule whose
//! tags intersect the requested tags, plus explicit inclusions, minus
//! explicit exclusions.  The runner builds one context per module, lets
//! each selected rule analyze the tree, filters the collected diagnostics
//! through the suppression engine, and sorts the result by span start,
//! ties broken by rule code.

use vstd::prelude::*;
use crate::ast::Module;
use crate::ban_ts_comment::{BanTsComment, ban_ts_comment_diags};
use crate::ban_untagged_ignore::{BanUntaggedIgnore, untagged_ignore_diags};
use crate::comments::{SourceIndex, SourceIndexView};
use crate::context::Context;
use crate::diagnostics::{Diagnostic, DiagnosticView};
use crate::directives::{IgnoreDirectiveView, spec_directive_index, build_directive_index};
use crate::no_new_symbol::{NoNewSymbol, nns_diags, nns_module};
use crate::no_unsafe_finally::{NoUnsafeFinally, nuf_module};
use crate::suppression::{spec_filter_diags, filter_diagnostics};
use crate::text::{spec_lex_le, lex_le, str_eq};

verus! {

/// The closed set of rules this engine ships: one variant per rule
/// implementation.
#[derive(Clone, Copy)]
pub enum LintRule {
    BanTsComment(BanTsComment),
    BanUntaggedIgnore(BanUntaggedIgnore),
    NoNewSymbol(NoNewSymbol),
    NoUnsafeFinally(NoUnsafeFinally),
}

/// The unique code of a rule.
pub open spec fn spec_rule_code(r: LintRule) -> Seq<char> {
    match r {
        LintRule::BanTsComment(_) => "ban-ts-comment"@,
        LintRule::BanUntaggedIgnore(_) => "ban-untagged-ignore"@,
        LintRule::NoNewSymbol(_) => "no-new-symbol"@,
        LintRule::NoUnsafeFinally(_) => "no-unsafe-finally"@,
    }
}

/// The tag set of a rule.
pub open spec fn spec_rule_tags(r: LintRule) -> Seq<Seq<char>> {
    match r {
        LintRule::BanTsComment(_) => seq!["recommended"@],
        LintRule::BanUntaggedIgnore(_) => seq!["recommended"@],
        LintRule::NoNewSymbol(_) => seq!["recommended"@],
        LintRule::NoUnsafeFinally(_) => seq!["recommended"@],
    }
}

/// What one rule emits against one module's context, in emission order.
pub open spec fn spec_rule_diags(
    r: LintRule,
    idx: SourceIndexView,
    dirs: Seq<IgnoreDirectiveView>,
    m: Module,
) -> Seq<DiagnosticView> {
    match r {
        LintRule::BanTsComment(_) => ban_ts_comment_diags(idx),
        LintRule::BanUntaggedIgnore(_) => untagged_ignore_diags(dirs),
        LintRule::NoNewSymbol(_) => nns_diags(nns_module(m)),
        LintRule::NoUnsafeFinally(_) => nuf_module(m),
    }
}

impl LintRule {
    pub fn code(&self) -> (r: &'static str)
        ensures
            r@ == spec_rule_code(*self),
    {
        match self {
            LintRule::BanTsComment(rule) => rule.code(),
            LintRule::BanUntaggedIgnore(rule) => rule.code(),
            LintRule::NoNewSymbol(rule) => rule.code(),
            LintRule::NoUnsafeFinally(rule) => rule.code(),
        }
    }

    pub fn tags(&self) -> (r: Vec<&'static str>)
        ensures
            r.deep_view() == spec_rule_tags(*self),
    {
        match self {
            LintRule::BanTsComment(rule) => rule.tags(),
            LintRule::BanUntaggedIgnore(rule) => rule.tags(),
            LintRule::NoNewSymbol(rule) => rule.tags(),
            LintRule::NoUnsafeFinally(rule) => rule.tags(),
        }
    }

    /// Analyzes one module: called exactly once per module per selected
    /// rule, after the context is fully built.
    pub fn lint_module(&self, context: &mut Context, module: &Module)
        ensures
            final(context).diagnostics.deep_view() == old(context).diagnostics.deep_view()
                + spec_rule_diags(*self, old(context).source_index@,
                    old(context).directives.deep_view(), *module),
            final(context).source_index == old(context).source_index,
            final(context).directives == old(context).directives,
    {
        match self {
            LintRule::BanTsComment(rule) => rule.lint_module(context, module),
            LintRule::BanUntaggedIgnore(rule) => rule.lint_module(context, module),
            LintRule::NoNewSymbol(rule) => rule.lint_module(context, module),
            LintRule::NoUnsafeFinally(rule) => rule.lint_module(context, module),
        }
    }
}

/// The full rule catalog, in registry order.
pub fn all_rules() -> (rules: Vec<LintRule>)
    ensures
        rules@ =~= seq![
            LintRule::BanTsComment(BanTsComment),
            LintRule::BanUntaggedIgnore(BanUntaggedIgnore),
            LintRule::NoNewSymbol(NoNewSymbol),
            LintRule::NoUnsafeFinally(NoUnsafeFinally),
        ],
{
    let mut rules: Vec<LintRule> = Vec::new();
    rules.push(LintRule::BanTsComment(BanTsComment));
    rules.push(LintRule::BanUntaggedIgnore(BanUntaggedIgnore));
    rules.push(LintRule::NoNewSymbol(NoNewSymbol));
    rules.push(LintRule::NoUnsafeFinally(NoUnsafeFinally));
    rules
}

/// Whether a rule's tag set intersects the requested tag set.
pub open spec fn spec_tags_intersect(rtags: Seq<Seq<char>>, tags: Seq<Seq<char>>) -> bool {
    exists|i: int| 0 <= i < rtags.len() && tags.contains(rtags[i])
}

/// Whether a run selects a rule: its tags intersect the requested tags,
/// or its code is explicitly included, and its code is not explicitly
/// excluded.
pub open spec fn spec_selected(
    r: LintRule,
    tags: Seq<Seq<char>>,
    extra: Seq<Seq<char>>,
    exclude: Seq<Seq<char>>,
) -> bool {
    (spec_tags_intersect(spec_rule_tags(r), tags) || extra.contains(spec_rule_code(r)))
        && !exclude.contains(spec_rule_code(r))
}

/// The selected sub-list of a catalog, in catalog order.
pub open spec fn spec_select(
    rs: Seq<LintRule>,
    tags: Seq<Seq<char>>,
    extra: Seq<Seq<char>>,
    exclude: Seq<Seq<char>>,
) -> Seq<LintRule>
    decreases rs.len(),
{
    if rs.len() == 0 {
        Seq::empty()
    } else {
        spec_select(rs.drop_last(), tags, extra, exclude)
            + (if spec_selected(rs.last(), tags, extra, exclude) {
            seq![rs.last()]
        } else {
            Seq::empty()
        })
    }
}

/// Returns whether `x` stands in the name list.
fn name_in(names: &Vec<String>, x: &str) -> (r: bool)
    ensures
        r == names.deep_view().contains(x@),
{
    let mut i: usize = 0;
    while i < names.len()
        invariant
            0 <= i <= names@.len(),
            forall|k: int| 0 <= k < i ==> names.deep_view()[k] != x@,
        decreases names@.len() - i,
    {
        if str_eq(names[i].as_str(), x) {
            proof {
                assert(names.deep_view()[i as int] == x@);
            }
            return true;
        }
        proof {
            assert(names.deep_view()[i as int] == names@[i as int]@);
        }
        i = i + 1;
    }
    false
}

/// Returns whether the rule's tag set intersects the requested tags.
fn rule_tags_intersect(r: &LintRule, tags: &Vec<String>) -> (sel: bool)
    ensures
        sel == spec_tags_intersect(spec_rule_tags(*r), tags.deep_view()),
{
    let rtags = r.tags();
    let mut j: usize = 0;
    while j < rtags.len()
        invariant
            0 <= j <= rtags@.len(),
            rtags.deep_view() == spec_rule_tags(*r),
            forall|k: int| 0 <= k < j ==> !tags.deep_view().contains(rtags.deep_view()[k]),
        decreases rtags@.len() - j,
    {
        if name_in(tags, rtags[j]) {
            proof {
                assert(rtags.deep_view()[j as int] == rtags@[j as int]@);
                assert(tags.deep_view().contains(spec_rule_tags(*r)[j as int]));
            }
            return true;
        }
        proof {
            assert(rtags.deep_view()[j as int] == rtags@[j as int]@);
        }
        j = j + 1;
    }
    false
}

/// Selects from a catalog the rules a run asks for: tag intersection,
/// union explicit inclusions, minus explicit exclusions, in catalog
/// order.
pub fn select_rules(rules: &Vec<LintRule>, tags: &Vec<String>, extra: &Vec<String>,
    exclude: &Vec<String>) -> (out: Vec<LintRule>)
    ensures
        out@ == spec_select(rules@, tags.deep_view(), extra.deep_view(), exclude.deep_view()),
{
    let ghost tv = tags.deep_view();
    let ghost iv = extra.deep_view();
    let ghost ev = exclude.deep_view();
    let mut out: Vec<LintRule> = Vec::new();
    let mut i: usize = 0;
    while i < rules.len()
        invariant
            0 <= i <= rules@.len(),
            tv == tags.deep_view(),
            iv == extra.deep_view(),
            ev == exclude.deep_view(),
            out@ == spec_select(rules@.subrange(0, i as int), tv, iv, ev),
        decreases rules@.len() - i,
    {
        proof {
            assert(rules@.subrange(0, i as int + 1).drop_last() =~= rules@.subrange(0, i as int));
            assert(rules@.subrange(0, i as int + 1).last() == rules@[i as int]);
        }
        let r = rules[i];
        let sel = (rule_tags_intersect(&r, tags) || name_in(extra, r.code()))
            && !name_in(exclude, r.code());
        let ghost o0 = out@;
        if sel {
            out.push(r);
            proof {
                assert(out@ =~= o0 + seq![rules@[i as int]]);
                assert(o0 + seq![rules@[i as int]]
                    =~= spec_select(rules@.subrange(0, i as int), tv, iv, ev)
                        + seq![rules@[i as int]]);
            }
        } else {
            proof {
                assert(spec_select(rules@.subrange(0, i as int + 1), tv, iv, ev)
                    =~= spec_select(rules@.subrange(0, i as int), tv, iv, ev));
            }
        }
        i = i + 1;
    }
    proof {
        assert(rules@.subrange(0, rules@.len() as int) =~= rules@);
    }
    out
}

/// What a rule list emits against one module, rule after rule.
pub open spec fn spec_run_rules(
    rules: Seq<LintRule>,
    idx: SourceIndexView,
    dirs: Seq<IgnoreDirectiveView>,
    m: Module,
) -> Seq<DiagnosticView>
    decreases rules.len(),
{
    if rules.len() == 0 {
        Seq::empty()
    } else {
        spec_run_rules(rules.drop_last(), idx, dirs, m)
            + spec_rule_diags(rules.last(), idx, dirs, m)
    }
}

/// Runs every rule of the list against one shared context, in list
/// order; each rule's whole traversal completes before the next begins.
pub fn run_rules(rules: &Vec<LintRule>, context: &mut Context, module: &Module)
    ensures
        final(context).diagnostics.deep_view() == old(context).diagnostics.deep_view()
            + spec_run_rules(rules@, old(context).source_index@,
                old(context).directives.deep_view(), *module),
        final(context).source_index == old(context).source_index,
        final(context).directives == old(context).directives,
{
    let ghost d0 = context.diagnostics.deep_view();
    let ghost si0 = context.source_index;
    let ghost dir0 = context.directives;
    let mut i: usize = 0;
    while i < rules.len()
        invariant
            0 <= i <= rules@.len(),
            context.source_index == si0,
            context.directives == dir0,
            context.diagnostics.deep_view() == d0
                + spec_run_rules(rules@.subrange(0, i as int), si0@, dir0.deep_view(), *module),
        decreases rules@.len() - i,
    {
        proof {
            assert(rules@.subrange(0, i as int + 1).drop_last() =~= rules@.subrange(0, i as int));
            assert(rules@.subrange(0, i as int + 1).last() == rules@[i as int]);
        }
        let ghost g0 = context.diagnostics.deep_view();
        let r = rules[i];
        r.lint_module(context, module);
        proof {
            assert(context.diagnostics.deep_view()
                =~= d0 + (spec_run_rules(rules@.subrange(0, i as int), si0@, dir0.deep_view(),
                    *module) + spec_rule_diags(rules@[i as int], si0@, dir0.deep_view(), *module)));
        }
        i = i + 1;
    }
    proof {
        assert(rules@.subrange(0, rules@.len() as int) =~= rules@);
    }
}

/// The output order: span start first, ties broken by rule code in
/// lexicographic order.
pub open spec fn diag_le(a: DiagnosticView, b: DiagnosticView) -> bool {
    a.span.lo < b.span.lo || (a.span.lo == b.span.lo && spec_lex_le(a.code, b.code))
}

/// Stable insertion of one diagnostic into an already sorted list: it
/// lands after every element that sorts at or before it.
pub open spec fn spec_insert_diag(s: Seq<DiagnosticView>, d: DiagnosticView) -> Seq<DiagnosticView>
    decreases s.len(),
{
    if s.len() == 0 {
        seq![d]
    } else if diag_le(s[0], d) {
        seq![s[0]] + spec_insert_diag(s.subrange(1, s.len() as int), d)
    } else {
        seq![d] + s
    }
}

/// Stable insertion sort over the output order.
pub open spec fn spec_sort_diags(s: Seq<DiagnosticView>) -> Seq<DiagnosticView>
    decreases s.len(),
{
    if s.len() == 0 {
        Seq::empty()
    } else {
        spec_insert_diag(spec_sort_diags(s.drop_last()), s.last())
    }
}

/// The output order ascends: every adjacent-or-distant pair stands in
/// `diag_le` order.
pub open spec fn diags_sorted(s: Seq<DiagnosticView>) -> bool {
    forall|i: int, j: int| 0 <= i < j < s.len() ==> diag_le(s[i], s[j])
}

/// The output order is total: of any two diagnostics, one sorts at or
/// before the other.
pub proof fn lemma_diag_le_total(a: DiagnosticView, b: DiagnosticView)
    ensures
        diag_le(a, b) || diag_le(b, a),
{
    crate::text::lemma_lex_le_total(a.code, b.code);
}

/// The output order is transitive.
pub proof fn lemma_diag_le_trans(a: DiagnosticView, b: DiagnosticView, c: DiagnosticView)
    requires
        diag_le(a, b),
        diag_le(b, c),
    ensures
        diag_le(a, c),
{
    if a.span.lo == b.span.lo && b.span.lo == c.span.lo {
        crate::text::lemma_lex_le_trans(a.code, b.code, c.code);
    }
}

/// Inserting into a sorted list keeps it sorted and adds exactly the new
/// element to its contents.
proof fn lemma_insert_diag_correct(s: Seq<DiagnosticView>, d: DiagnosticView)
    requires
        diags_sorted(s),
    ensures
        diags_sorted(spec_insert_diag(s, d)),
        spec_insert_diag(s, d).to_multiset() == s.to_multiset().insert(d),
    decreases s.len(),
{
    broadcast use vstd::seq_lib::group_to_multiset_ensures;
    broadcast use vstd::seq_lib::lemma_multiset_commutative;

    let r = spec_insert_diag(s, d);
    if s.len() == 0 {
        assert(seq![d] =~= Seq::<DiagnosticView>::empty().push(d));
        assert(r.to_multiset() =~= s.to_multiset().insert(d));
    } else if diag_le(s[0], d) {
        let rest = s.subrange(1, s.len() as int);
        assert(forall|i: int, j: int| 0 <= i < j < rest.len() ==> diag_le(rest[i], rest[j]));
        lemma_insert_diag_correct(rest, d);
        let ri = spec_insert_diag(rest, d);
        assert(r == seq![s[0]] + ri);
        // contents
        assert(s =~= seq![s[0]] + rest);
        assert(r.to_multiset() =~= s.to_multiset().insert(d));
        // order: the head sorts at or before everything behind it
        assert forall|j: int| 0 <= j < ri.len() implies diag_le(s[0], ri[j]) by {
            assert(ri.contains(ri[j]));
            assert(ri.to_multiset().count(ri[j]) > 0);
            if ri[j] == d {
            } else {
                assert(rest.to_multiset().count(ri[j]) > 0);
                assert(rest.contains(ri[j]));
                let k = choose|k: int| 0 <= k < rest.len() && rest[k] == ri[j];
                assert(rest[k] == s[k + 1]);
            }
        }
        assert forall|i: int, j: int| 0 <= i < j < r.len() implies diag_le(r[i], r[j]) by {
            if i == 0 {
                assert(r[j] == ri[j - 1]);
            } else {
                assert(r[i] == ri[i - 1] && r[j] == ri[j - 1]);
            }
        }
    } else {
        assert(r == seq![d] + s);
        lemma_diag_le_total(s[0], d);
        assert(diag_le(d, s[0]));
        assert(s =~= Seq::<DiagnosticView>::empty().push(s[0]) + s.subrange(1, s.len() as int));
        assert(r.to_multiset() =~= s.to_multiset().insert(d));
        assert forall|i: int, j: int| 0 <= i < j < r.len() implies diag_le(r[i], r[j]) by {
            if i == 0 {
                assert(r[j] == s[j - 1]);
                if j == 1 {
                } else {
                    lemma_diag_le_trans(d, s[0], s[j - 1]);
                }
            } else {
                assert(r[i] == s[i - 1] && r[j] == s[j - 1]);
            }
        }
    }
}

/// The runner's output order, proved of the sort itself: the sorted list
/// is a permutation of its input and ascends by span start, ties broken
/// by rule code.
pub proof fn lemma_sort_diags_correct(s: Seq<DiagnosticView>)
    ensures
        diags_sorted(spec_sort_diags(s)),
        spec_sort_diags(s).to_multiset() == s.to_multiset(),
    decreases s.len(),
{
    broadcast use vstd::seq_lib::group_to_multiset_ensures;

    if s.len() > 0 {
        lemma_sort_diags_correct(s.drop_last());
        lemma_insert_diag_correct(spec_sort_diags(s.drop_last()), s.last());
        assert(s =~= s.drop_last().push(s.last()));
        assert(spec_sort_diags(s).to_multiset() =~= s.to_multiset());
    }
}

proof fn lemma_insert_split(s: Seq<DiagnosticView>, d: DiagnosticView, j: int)
    requires
        0 <= j <= s.len(),
        forall|k: int| 0 <= k < j ==> diag_le(s[k], d),
        j < s.len() ==> !diag_le(s[j], d),
    ensures
        spec_insert_diag(s, d) == s.subrange(0, j) + seq![d] + s.subrange(j, s.len() as int),
    decreases s.len(),
{
    if s.len() == 0 {
        assert(s.subrange(0, 0) + seq![d] + s.subrange(0, 0) =~= seq![d]);
    } else if j == 0 {
        assert(spec_insert_diag(s, d) == seq![d] + s);
        assert(s.subrange(0, 0) + seq![d] + s.subrange(0, s.len() as int) =~= seq![d] + s);
    } else {
        let t = s.subrange(1, s.len() as int);
        assert(forall|k: int| 0 <= k < j - 1 ==> diag_le(#[trigger] t[k], d));
        lemma_insert_split(t, d, j - 1);
        assert(spec_insert_diag(s, d) == seq![s[0]] + spec_insert_diag(t, d));
        assert(seq![s[0]] + (t.subrange(0, j - 1) + seq![d] + t.subrange(j - 1, t.len() as int))
            =~= s.subrange(0, j) + seq![d] + s.subrange(j, s.len() as int));
    }
}

fn diag_le_exec(a: &Diagnostic, b: &Diagnostic) -> (r: bool)
    ensures
        r == diag_le(a@, b@),
{
    if a.span.lo < b.span.lo {
        true
    } else if a.span.lo == b.span.lo {
        lex_le(a.code.as_str(), b.code.as_str())
    } else {
        false
    }
}

fn insert_sorted(v: &mut Vec<Diagnostic>, d: Diagnostic)
    ensures
        final(v).deep_view() == spec_insert_diag(old(v).deep_view(), d@),
{
    let ghost s = v.deep_view();
    let mut j: usize = 0;
    while j < v.len() && diag_le_exec(&v[j], &d)
        invariant
            0 <= j <= v@.len(),
            s == v.deep_view(),
            forall|k: int| 0 <= k < j ==> diag_le(s[k], d@),
        decreases v@.len() - j,
    {
        proof {
            assert(s[j as int] == v@[j as int]@);
        }
        j = j + 1;
    }
    proof {
        assert(j < v@.len() ==> s[j as int] == v@[j as int]@);
        lemma_insert_split(s, d@, j as int);
    }
    let ghost vv = v@;
    v.insert(j, d);
    proof {
        assert forall|k: int| 0 <= k < v@.len()
            implies #[trigger] v.deep_view()[k]
                == (s.subrange(0, j as int) + seq![d@] + s.subrange(j as int, s.len() as int))[k] by {
            if k < j {
                assert(v@[k] == vv[k]);
            } else if k == j {
                assert(v@[k] == d);
            } else {
                assert(v@[k] == vv[k - 1]);
            }
        }
        assert(v.deep_view()
            =~= s.subrange(0, j as int) + seq![d@] + s.subrange(j as int, s.len() as int));
    }
}

/// Sorts a diagnostic list into the output order, stably: span start
/// first, ties broken by rule code.
pub fn sort_diagnostics(ds: Vec<Diagnostic>) -> (out: Vec<Diagnostic>)
    ensures
        out.deep_view() == spec_sort_diags(ds.deep_view()),
{
    let ghost orig = ds.deep_view();
    let n = ds.len();
    let mut rest = ds;
    let mut out: Vec<Diagnostic> = Vec::new();
    let mut i: usize = 0;
    while i < n
        invariant
            0 <= i <= n,
            n == orig.len(),
            rest@.len() == n - i,
            rest.deep_view() =~= orig.subrange(i as int, n as int),
            out.deep_view() == spec_sort_diags(orig.subrange(0, i as int)),
        decreases n - i,
    {
        let ghost r0 = rest.deep_view();
        let ghost rv0 = rest@;
        let d = rest.remove(0);
        proof {
            assert(r0[0] == orig[i as int]);
            assert(d.deep_view() == r0[0]);
            assert(rest@ =~= rv0.subrange(1, rv0.len() as int));
            assert forall|k: int| 0 <= k < rest@.len()
                implies #[trigger] rest.deep_view()[k] == orig[i + 1 + k] by {
                assert(rest@[k] == rv0[k + 1]);
                assert(r0[k + 1] == rv0[k + 1].deep_view());
                assert(r0[k + 1] == orig[i + 1 + k]);
            }
            assert(rest.deep_view() =~~= orig.subrange(i as int + 1, n as int));
            assert(orig.subrange(0, i as int + 1).drop_last() =~= orig.subrange(0, i as int));
            assert(orig.subrange(0, i as int + 1).last() == orig[i as int]);
        }
        insert_sorted(&mut out, d);
        i = i + 1;
    }
    proof {
        assert(orig.subrange(0, n as int) =~= orig);
    }
    out
}

/// What one full run returns: the rules' raw diagnostics, filtered
/// against the module's directive index, in the output order.
pub open spec fn spec_lint_module(
    rules: Seq<LintRule>,
    idx: SourceIndexView,
    ls: Seq<usize>,
    m: Module,
) -> Seq<DiagnosticView> {
    let dirs = spec_directive_index(idx, ls);
    spec_sort_diags(spec_filter_diags(spec_run_rules(rules, idx, dirs, m), dirs, ls))
}

/// One full lint run over one module: builds the directive index and the
/// context, runs every given rule, filters the raw diagnostics through
/// the suppression engine, and sorts the result by span start, ties
/// broken by rule code.
pub fn lint_module(rules: &Vec<LintRule>, module: &Module, source_index: SourceIndex,
    line_starts: &Vec<usize>) -> (out: Vec<Diagnostic>)
    requires
        line_starts@.len() > 0,
    ensures
        out.deep_view() == spec_lint_module(rules@, source_index@, line_starts@, *module),
{
    let ghost idxv = source_index@;
    let dirs = build_directive_index(&source_index, line_starts);
    let mut context = Context::new(source_index, dirs);
    run_rules(rules, &mut context, module);
    proof {
        assert(context.diagnostics.deep_view()
            =~= spec_run_rules(rules@, idxv, spec_directive_index(idxv, line_starts@), *module));
    }
    let Context { directives, diagnostics, .. } = context;
    let filtered = filter_diagnostics(diagnostics, &directives, line_starts);
    sort_diagnostics(filtered)
}

/// Idempotence: the pipeline output is a function of the rule list, the
/// tree, the comment stream and the line table alone, so two runs on an
/// unchanged module yield identical diagnostic lists.
pub proof fn lemma_lint_idempotent(
    rules: Seq<LintRule>,
    idx: SourceIndexView,
    ls: Seq<usize>,
    m: Module,
    r1: Seq<DiagnosticView>,
    r2: Seq<DiagnosticView>,
)
    requires
        r1 == spec_lint_module(rules, idx, ls, m),
        r2 == spec_lint_module(rules, idx, ls, m),
    ensures
        r1 == r2,
{
}

} // verus!
