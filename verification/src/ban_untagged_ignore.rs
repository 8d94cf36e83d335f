//! The untagged-suppression rule.
//!
//! Flags every ignore directive whose code list is empty: a directive
//! that silences everything names no rule it means to silence.  This is
//! the one rule that reports purely from the directive index, without
//! walking the syntax tree at all.

use vstd::prelude::*;
use crate::ast::Module;
use crate::context::Context;
use crate::diagnostics::DiagnosticView;
use crate::directives::IgnoreDirectiveView;

verus! {

#[derive(Clone, Copy)]
pub struct BanUntaggedIgnore;

/// The diagnostics the rule owes a directive list: exactly one per
/// directive with an empty code list, anchored at the directive's span,
/// in directive order.
pub open spec fn untagged_ignore_diags(dirs: Seq<IgnoreDirectiveView>) -> Seq<DiagnosticView>
    decreases dirs.len(),
{
    if dirs.len() == 0 {
        Seq::empty()
    } else {
        untagged_ignore_diags(dirs.drop_last()) + (if dirs.last().codes.len() == 0 {
            seq![DiagnosticView {
                span: dirs.last().span,
                code: "ban-untagged-ignore"@,
                message: "Ignore directive requires lint rule code"@,
            }]
        } else {
            Seq::empty()
        })
    }
}

impl BanUntaggedIgnore {
    pub fn new() -> (r: Box<BanUntaggedIgnore>) {
        Box::new(BanUntaggedIgnore)
    }

    pub fn code(&self) -> (r: &'static str)
        ensures
            r@ == "ban-untagged-ignore"@,
    {
        "ban-untagged-ignore"
    }

    pub fn tags(&self) -> (r: Vec<&'static str>)
        ensures
            r.deep_view() == seq!["recommended"@],
    {
        let mut v: Vec<&'static str> = Vec::new();
        v.push("recommended");
        proof {
            assert(v.deep_view() =~= seq!["recommended"@]);
        }
        v
    }

    pub fn docs(&self) -> (r: &'static str) {
        ""
    }

    /// Emits one diagnostic per untagged directive of the session's
    /// directive index; the tree plays no part.
    pub fn lint_module(&self, context: &mut Context, module: &Module)
        ensures
            final(context).diagnostics.deep_view() == old(context).diagnostics.deep_view()
                + untagged_ignore_diags(old(context).directives.deep_view()),
            final(context).source_index == old(context).source_index,
            final(context).directives == old(context).directives,
    {
        let ghost d0 = context.diagnostics.deep_view();
        let ghost dv = context.directives.deep_view();
        let ghost si0 = context.source_index;
        let ghost dir0 = context.directives;
        let n = context.directives.len();
        let mut i: usize = 0;
        while i < n
            invariant
                0 <= i <= n,
                n == context.directives@.len(),
                context.source_index == si0,
                context.directives == dir0,
                dv == context.directives.deep_view(),
                context.diagnostics.deep_view() == d0
                    + untagged_ignore_diags(dv.subrange(0, i as int)),
            decreases n - i,
        {
            proof {
                assert(dv.subrange(0, i as int + 1).drop_last() =~= dv.subrange(0, i as int));
                assert(dv.subrange(0, i as int + 1).last() == dv[i as int]);
            }
            let span = context.directives[i].span;
            let is_untagged = context.directives[i].codes.len() == 0;
            proof {
                assert(dv[i as int].codes.len() == context.directives@[i as int].codes@.len());
            }
            if is_untagged {
                let ghost g0 = context.diagnostics.deep_view();
                context.add_diagnostic(span, "ban-untagged-ignore",
                    "Ignore directive requires lint rule code");
                proof {
                    let dg = DiagnosticView {
                        span: dv[i as int].span,
                        code: "ban-untagged-ignore"@,
                        message: "Ignore directive requires lint rule code"@,
                    };
                    assert(context.diagnostics.deep_view() =~= g0.push(dg));
                    assert(untagged_ignore_diags(dv.subrange(0, i as int + 1))
                        == untagged_ignore_diags(dv.subrange(0, i as int)) + seq![dg]);
                    assert(g0.push(dg)
                        =~= d0 + (untagged_ignore_diags(dv.subrange(0, i as int)) + seq![dg]));
                }
            } else {
                proof {
                    assert(untagged_ignore_diags(dv.subrange(0, i as int + 1))
                        =~= untagged_ignore_diags(dv.subrange(0, i as int)));
                }
            }
            i = i + 1;
        }
        proof {
            assert(dv.subrange(0, n as int) =~= dv);
        }
    }
}

} // verus!
