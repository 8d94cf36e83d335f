//! Ignore directives.
//!
//! A specially-formatted line comment silences diagnostics: the directive
//! keyword, then zero or more whitespace-separated rule codes.  An empty
//! code list means "suppress everything anchored here".  A directive on
//! the first source line has file scope, any other one line scope.  The
//! directive index is computed once from the source index and read-only
//! afterwards.

use vstd::prelude::*;
use vstd::string::StrSliceExecFns;
use crate::span::{Span, spec_line_of, line_of};
use crate::comments::{Comment, CommentView, CommentKind, CommentGroup,
    SourceIndex, SourceIndexView, flatten_groups, all_comments};
use crate::text::{spec_is_ignore_directive, spec_directive_codes, skip_ws, kw_at, parse_tokens};

verus! {

#[derive(Clone, Copy, PartialEq, Eq, Structural, Debug)]
pub enum DirectiveScope {
    FileLevel,
    LineLevel,
}

/// One parsed ignore directive.
pub struct IgnoreDirective {
    pub span: Span,
    pub codes: Vec<Vec<char>>,
    pub scope: DirectiveScope,
}

pub ghost struct IgnoreDirectiveView {
    pub span: Span,
    pub codes: Seq<Seq<char>>,
    pub scope: DirectiveScope,
}

impl View for IgnoreDirective {
    type V = IgnoreDirectiveView;

    open spec fn view(&self) -> IgnoreDirectiveView {
        IgnoreDirectiveView {
            span: self.span,
            codes: self.codes.deep_view(),
            scope: self.scope,
        }
    }
}

impl DeepView for IgnoreDirective {
    type V = IgnoreDirectiveView;

    open spec fn deep_view(&self) -> IgnoreDirectiveView {
        self.view()
    }
}

/// The directive a comment yields, if any: a line comment whose text
/// carries the directive keyword, with its codes, scoped to the file when
/// it stands on the first source line and to its own line otherwise.
pub open spec fn spec_directive_of(c: CommentView, ls: Seq<usize>) -> Option<IgnoreDirectiveView> {
    if c.kind == CommentKind::Line && spec_is_ignore_directive(c.text) {
        Some(IgnoreDirectiveView {
            span: c.span,
            codes: spec_directive_codes(c.text),
            scope: if spec_line_of(ls, c.span.lo as int) == 0 {
                DirectiveScope::FileLevel
            } else {
                DirectiveScope::LineLevel
            },
        })
    } else {
        None
    }
}

pub open spec fn opt_to_seq(o: Option<IgnoreDirectiveView>) -> Seq<IgnoreDirectiveView> {
    match o {
        Some(d) => seq![d],
        None => Seq::empty(),
    }
}

/// The directives of a comment list, in comment order.
pub open spec fn spec_directives_of(cs: Seq<CommentView>, ls: Seq<usize>) -> Seq<IgnoreDirectiveView>
    decreases cs.len(),
{
    if cs.len() == 0 {
        Seq::empty()
    } else {
        spec_directives_of(cs.drop_last(), ls) + opt_to_seq(spec_directive_of(cs.last(), ls))
    }
}

/// The directive index of a module: the directives of every comment the
/// source index holds, leading comments first.
pub open spec fn spec_directive_index(idx: SourceIndexView, ls: Seq<usize>) -> Seq<IgnoreDirectiveView> {
    spec_directives_of(all_comments(idx), ls)
}

pub proof fn lemma_directives_app(a: Seq<CommentView>, b: Seq<CommentView>, ls: Seq<usize>)
    ensures
        spec_directives_of(a + b, ls) == spec_directives_of(a, ls) + spec_directives_of(b, ls),
    decreases b.len(),
{
    if b.len() == 0 {
        assert(a + b =~= a);
        assert(spec_directives_of(a, ls) + Seq::<IgnoreDirectiveView>::empty()
            =~= spec_directives_of(a, ls));
    } else {
        lemma_directives_app(a, b.drop_last(), ls);
        assert((a + b).drop_last() =~= a + b.drop_last());
        assert((a + b).last() == b.last());
        assert((spec_directives_of(a, ls) + spec_directives_of(b.drop_last(), ls))
                + opt_to_seq(spec_directive_of(b.last(), ls))
            =~= spec_directives_of(a, ls)
                + (spec_directives_of(b.drop_last(), ls)
                    + opt_to_seq(spec_directive_of(b.last(), ls))));
    }
}

/// Parses one comment into its ignore directive, if it is one.
pub fn parse_directive(c: &Comment, ls: &Vec<usize>) -> (r: Option<IgnoreDirective>)
    requires
        ls@.len() > 0,
    ensures
        r.deep_view() == spec_directive_of(c@, ls@),
{
    if c.kind != CommentKind::Line {
        return None;
    }
    let text = c.text.as_str();
    let i = skip_ws(text, 0);
    if !kw_at(text, i, "deno-lint-ignore") {
        return None;
    }
    let klen = "deno-lint-ignore".unicode_len();
    let n = text.unicode_len();
    assert(i + klen <= n);
    let codes = parse_tokens(text, i + klen);
    let line = line_of(ls, c.span.lo);
    let scope = if line == 0 {
        DirectiveScope::FileLevel
    } else {
        DirectiveScope::LineLevel
    };
    Some(IgnoreDirective { span: c.span, codes, scope })
}

/// Appends to `out` the directives of every comment of `groups`, in
/// group order.
fn collect_directives_from(groups: &Vec<CommentGroup>, ls: &Vec<usize>, out: &mut Vec<IgnoreDirective>)
    requires
        ls@.len() > 0,
    ensures
        final(out).deep_view() == old(out).deep_view()
            + spec_directives_of(flatten_groups(groups.deep_view()), ls@),
{
    let ghost base = out.deep_view();
    let ghost gv = groups.deep_view();
    let mut g: usize = 0;
    while g < groups.len()
        invariant
            0 <= g <= groups@.len(),
            ls@.len() > 0,
            gv == groups.deep_view(),
            out.deep_view() == base
                + spec_directives_of(flatten_groups(gv.subrange(0, g as int)), ls@),
        decreases groups@.len() - g,
    {
        let group = &groups[g];
        let ghost p0 = flatten_groups(gv.subrange(0, g as int));
        let mut k: usize = 0;
        while k < group.comments.len()
            invariant
                0 <= k <= group.comments@.len(),
                ls@.len() > 0,
                group == groups@[g as int],
                0 <= g < groups@.len(),
                gv == groups.deep_view(),
                p0 == flatten_groups(gv.subrange(0, g as int)),
                out.deep_view() == base
                    + spec_directives_of(p0 + gv[g as int].comments.subrange(0, k as int), ls@),
            decreases group.comments@.len() - k,
        {
            let ghost pk = p0 + gv[g as int].comments.subrange(0, k as int);
            let ghost pk1 = p0 + gv[g as int].comments.subrange(0, k as int + 1);
            let c = &group.comments[k];
            proof {
                assert(gv[g as int].comments =~= group.comments.deep_view());
                assert(pk1.drop_last() =~= pk);
                assert(pk1.last() == c.deep_view());
                assert(spec_directives_of(pk1, ls@)
                    == spec_directives_of(pk, ls@) + opt_to_seq(spec_directive_of(c@, ls@)));
            }
            let d = parse_directive(c, ls);
            match d {
                Some(dir) => {
                    let ghost o0 = out.deep_view();
                    out.push(dir);
                    proof {
                        assert(out.deep_view() =~= o0 + seq![dir.deep_view()]);
                        assert((base + spec_directives_of(pk, ls@)) + seq![dir.deep_view()]
                            =~= base + (spec_directives_of(pk, ls@) + seq![dir.deep_view()]));
                        assert(opt_to_seq(spec_directive_of(c@, ls@)) =~= seq![dir.deep_view()]);
                    }
                },
                None => {
                    proof {
                        assert(opt_to_seq(spec_directive_of(c@, ls@)) =~= Seq::empty());
                        assert(spec_directives_of(pk1, ls@) =~= spec_directives_of(pk, ls@));
                    }
                },
            }
            k = k + 1;
        }
        proof {
            assert(gv.subrange(0, g as int + 1).drop_last() =~= gv.subrange(0, g as int));
            assert(gv.subrange(0, g as int + 1).last() == gv[g as int]);
            assert(flatten_groups(gv.subrange(0, g as int + 1))
                == flatten_groups(gv.subrange(0, g as int)) + gv[g as int].comments);
            assert(gv[g as int].comments.subrange(0, group.comments@.len() as int)
                =~= gv[g as int].comments);
        }
        g = g + 1;
    }
    proof {
        assert(gv.subrange(0, groups@.len() as int) =~= gv);
    }
}

/// Builds the directive index of a module from its source index and line
/// table.
pub fn build_directive_index(idx: &SourceIndex, ls: &Vec<usize>) -> (dirs: Vec<IgnoreDirective>)
    requires
        ls@.len() > 0,
    ensures
        dirs.deep_view() == spec_directive_index(idx@, ls@),
{
    let mut out: Vec<IgnoreDirective> = Vec::new();
    collect_directives_from(&idx.leading, ls, &mut out);
    collect_directives_from(&idx.trailing, ls, &mut out);
    proof {
        lemma_directives_app(flatten_groups(idx@.leading), flatten_groups(idx@.trailing), ls@);
        assert(Seq::<IgnoreDirectiveView>::empty()
            + spec_directives_of(flatten_groups(idx@.leading), ls@)
            + spec_directives_of(flatten_groups(idx@.trailing), ls@)
            =~= spec_directives_of(flatten_groups(idx@.leading), ls@)
            + spec_directives_of(flatten_groups(idx@.trailing), ls@));
    }
    out
}

} // verus!
