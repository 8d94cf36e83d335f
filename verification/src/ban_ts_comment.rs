//! The suppression-comment-keyword rule.
//!
//! Flags every line comment whose whole body is one of the recognized
//! type-checker suppression keywords, wherever it leads or trails a node.
//! The match is a full-line match: comments that merely mention a keyword
//! in prose, or follow it with further text, do not match, and block
//! comments never match.

use vstd::prelude::*;
use crate::ast::Module;
use crate::comments::{Comment, CommentView, CommentKind, CommentGroup, SourceIndexView,
    flatten_groups};
use crate::context::Context;
use crate::diagnostics::DiagnosticView;
use crate::span::Span;
use crate::text::{spec_is_ts_directive, is_ts_directive};

verus! {

#[derive(Clone, Copy)]
pub struct BanTsComment;

/// A comment the rule reports: a line comment that is a bare suppression
/// keyword.
pub open spec fn spec_check_comment(c: CommentView) -> bool {
    c.kind == CommentKind::Line && spec_is_ts_directive(c.text)
}

/// The spans of the reported comments of a comment list, in order.
pub open spec fn ts_matched_spans(cs: Seq<CommentView>) -> Seq<Span>
    decreases cs.len(),
{
    if cs.len() == 0 {
        Seq::empty()
    } else {
        ts_matched_spans(cs.drop_last()) + (if spec_check_comment(cs.last()) {
            seq![cs.last().span]
        } else {
            Seq::empty()
        })
    }
}

/// One rule diagnostic per span, in span-list order.
pub open spec fn ts_diags_of_spans(sp: Seq<Span>) -> Seq<DiagnosticView>
    decreases sp.len(),
{
    if sp.len() == 0 {
        Seq::empty()
    } else {
        ts_diags_of_spans(sp.drop_last()) + seq![DiagnosticView {
            span: sp.last(),
            code: "ban-ts-comment"@,
            message: "ts directives are not allowed"@,
        }]
    }
}

/// Everything the rule emits for one source index: one diagnostic per
/// reported comment, at that comment's span, leading comments first.
pub open spec fn ban_ts_comment_diags(idx: SourceIndexView) -> Seq<DiagnosticView> {
    ts_diags_of_spans(
        ts_matched_spans(flatten_groups(idx.leading))
            + ts_matched_spans(flatten_groups(idx.trailing)),
    )
}

/// Returns whether the comment should be reported.
pub fn check_comment(c: &Comment) -> (r: bool)
    ensures
        r == spec_check_comment(c@),
{
    if c.kind != CommentKind::Line {
        return false;
    }
    is_ts_directive(c.text.as_str())
}

/// Appends to `out` the spans of every reported comment of `groups`, in
/// group order.
fn collect_ts_spans(groups: &Vec<CommentGroup>, out: &mut Vec<Span>)
    ensures
        final(out)@ == old(out)@ + ts_matched_spans(flatten_groups(groups.deep_view())),
{
    let ghost base = out@;
    let ghost gv = groups.deep_view();
    let mut g: usize = 0;
    while g < groups.len()
        invariant
            0 <= g <= groups@.len(),
            gv == groups.deep_view(),
            out@ == base + ts_matched_spans(flatten_groups(gv.subrange(0, g as int))),
        decreases groups@.len() - g,
    {
        let group = &groups[g];
        let ghost p0 = flatten_groups(gv.subrange(0, g as int));
        let mut k: usize = 0;
        while k < group.comments.len()
            invariant
                0 <= k <= group.comments@.len(),
                group == groups@[g as int],
                0 <= g < groups@.len(),
                gv == groups.deep_view(),
                p0 == flatten_groups(gv.subrange(0, g as int)),
                out@ == base + ts_matched_spans(p0 + gv[g as int].comments.subrange(0, k as int)),
            decreases group.comments@.len() - k,
        {
            let ghost pk = p0 + gv[g as int].comments.subrange(0, k as int);
            let ghost pk1 = p0 + gv[g as int].comments.subrange(0, k as int + 1);
            let c = &group.comments[k];
            proof {
                assert(gv[g as int].comments =~= group.comments.deep_view());
                assert(pk1.drop_last() =~= pk);
                assert(pk1.last() == c.deep_view());
            }
            if check_comment(c) {
                out.push(c.span);
                proof {
                    assert(ts_matched_spans(pk1)
                        == ts_matched_spans(pk) + seq![c@.span]);
                    assert(out@ =~= base + (ts_matched_spans(pk) + seq![c@.span]));
                }
            } else {
                proof {
                    assert(ts_matched_spans(pk1) =~= ts_matched_spans(pk));
                }
            }
            k = k + 1;
        }
        proof {
            assert(gv.subrange(0, g as int + 1).drop_last() =~= gv.subrange(0, g as int));
            assert(gv.subrange(0, g as int + 1).last() == gv[g as int]);
            assert(gv[g as int].comments.subrange(0, group.comments@.len() as int)
                =~= gv[g as int].comments);
        }
        g = g + 1;
    }
    proof {
        assert(gv.subrange(0, groups@.len() as int) =~= gv);
    }
}

impl BanTsComment {
    pub fn new() -> (r: Box<BanTsComment>) {
        Box::new(BanTsComment)
    }

    pub fn code(&self) -> (r: &'static str)
        ensures
            r@ == "ban-ts-comment"@,
    {
        "ban-ts-comment"
    }

    pub fn tags(&self) -> (r: Vec<&'static str>)
        ensures
            r.deep_view() == seq!["recommended"@],
    {
        let mut v: Vec<&'static str> = Vec::new();
        v.push("recommended");
        proof {
            assert(v.deep_view() =~= seq!["recommended"@]);
        }
        v
    }

    pub fn docs(&self) -> (r: &'static str) {
        ""
    }

    fn report(&self, context: &mut Context, span: Span)
        ensures
            final(context).diagnostics.deep_view() == old(context).diagnostics.deep_view()
                .push(DiagnosticView {
                    span,
                    code: "ban-ts-comment"@,
                    message: "ts directives are not allowed"@,
                }),
            final(context).source_index == old(context).source_index,
            final(context).directives == old(context).directives,
    {
        context.add_diagnostic(span, "ban-ts-comment", "ts directives are not allowed");
    }

    /// Emits one diagnostic per bare suppression-keyword line comment of
    /// the source index, leading comments before trailing ones.
    pub fn lint_module(&self, context: &mut Context, module: &Module)
        ensures
            final(context).diagnostics.deep_view() == old(context).diagnostics.deep_view()
                + ban_ts_comment_diags(old(context).source_index@),
            final(context).source_index == old(context).source_index,
            final(context).directives == old(context).directives,
    {
        let mut violated_comment_spans: Vec<Span> = Vec::new();
        collect_ts_spans(&context.source_index.leading, &mut violated_comment_spans);
        collect_ts_spans(&context.source_index.trailing, &mut violated_comment_spans);
        proof {
            assert(violated_comment_spans@
                =~= ts_matched_spans(flatten_groups(context.source_index@.leading))
                    + ts_matched_spans(flatten_groups(context.source_index@.trailing)));
        }
        let ghost sp = violated_comment_spans@;
        let ghost d0 = context.diagnostics.deep_view();
        let ghost si0 = context.source_index;
        let ghost dir0 = context.directives;
        let n = violated_comment_spans.len();
        let mut i: usize = 0;
        while i < n
            invariant
                0 <= i <= n,
                n == sp.len(),
                sp == violated_comment_spans@,
                context.source_index == si0,
                context.directives == dir0,
                context.diagnostics.deep_view() == d0 + ts_diags_of_spans(sp.subrange(0, i as int)),
            decreases n - i,
        {
            proof {
                assert(sp.subrange(0, i as int + 1).drop_last() =~= sp.subrange(0, i as int));
                assert(sp.subrange(0, i as int + 1).last() == sp[i as int]);
            }
            let ghost g0 = context.diagnostics.deep_view();
            let span = violated_comment_spans[i];
            self.report(context, span);
            proof {
                let dg = DiagnosticView {
                    span: sp[i as int],
                    code: "ban-ts-comment"@,
                    message: "ts directives are not allowed"@,
                };
                assert(ts_diags_of_spans(sp.subrange(0, i as int + 1))
                    == ts_diags_of_spans(sp.subrange(0, i as int)) + seq![dg]);
                assert(g0.push(dg)
                    =~= d0 + (ts_diags_of_spans(sp.subrange(0, i as int)) + seq![dg]));
            }
            i = i + 1;
        }
        proof {
            assert(sp.subrange(0, n as int) =~= sp);
        }
    }
}

} // verus!
