//! The unsafe-control-flow-in-cleanup-block rule.
//!
//! For every try statement with a finally block, flags each direct-child
//! control-transfer statement (return, throw, break, continue) of that
//! block, anchored at the block's span rather than the statement's.
//! Statements nested deeper — inside a function literal, a switch case, a
//! nested block — are not flagged, but the walk still descends into the
//! whole try construct, so nested try/finally statements are each checked
//! independently against their own finally block.

use vstd::prelude::*;
use crate::ast::{Module, Stmt, Expr, BlockStmt, TryStmt, SwitchCase};
use crate::context::Context;
use crate::diagnostics::{Diagnostic, DiagnosticView};
use crate::span::Span;

verus! {

#[derive(Clone, Copy)]
pub struct NoUnsafeFinally;

/// The rule's diagnostic at one span.
pub open spec fn nuf_diag(span: Span, message: Seq<char>) -> DiagnosticView {
    DiagnosticView { span, code: "no-unsafe-finally"@, message }
}

/// The message a direct child of a finally block earns, if it is a
/// control-transfer statement.
pub open spec fn transfer_message(s: Stmt) -> Option<Seq<char>> {
    match s {
        Stmt::Break { .. } => Some("Unsafe usage of BreakStatement"@),
        Stmt::Continue { .. } => Some("Unsafe usage of ContinueStatement"@),
        Stmt::Return { .. } => Some("Unsafe usage of ReturnStatement"@),
        Stmt::Throw { .. } => Some("Unsafe usage of ThrowStatement"@),
        _ => None,
    }
}

/// The diagnostics owed to the direct children of one finally block:
/// one per control-transfer statement, each anchored at the block's span,
/// in statement order.  One level only: nothing nested deeper counts.
pub open spec fn finally_list_diags(fin_span: Span, ss: Seq<Stmt>) -> Seq<DiagnosticView>
    decreases ss.len(),
{
    if ss.len() == 0 {
        Seq::empty()
    } else {
        finally_list_diags(fin_span, ss.drop_last()) + (match transfer_message(ss.last()) {
            Some(m) => seq![nuf_diag(fin_span, m)],
            None => Seq::empty(),
        })
    }
}

pub open spec fn finally_violations(fin: BlockStmt) -> Seq<DiagnosticView> {
    finally_list_diags(fin.span, fin.stmts@)
}

/// What a try statement contributes, in emission order: its finally
/// block's direct violations first, then whatever the walk finds inside
/// the try block, the handler and the finally block themselves.
pub open spec fn nuf_try(t: TryStmt) -> Seq<DiagnosticView>
    decreases t,
{
    (match t.finalizer {
        Some(f) => finally_violations(f),
        None => Seq::empty(),
    }) + nuf_stmts(t.block.stmts@) + nuf_opt_block(t.handler) + nuf_opt_block(t.finalizer)
}

pub open spec fn nuf_expr(e: Expr) -> Seq<DiagnosticView>
    decreases e,
{
    match e {
        Expr::Ident { .. } => Seq::empty(),
        Expr::Lit { .. } => Seq::empty(),
        Expr::Member { obj, .. } => nuf_expr(*obj),
        Expr::Call { callee, args, .. } => nuf_expr(*callee) + nuf_exprs(args@),
        Expr::New { callee, args, .. } => nuf_expr(*callee) + nuf_exprs(args@),
        Expr::Func { body, .. } => nuf_stmts(body@),
    }
}

pub open spec fn nuf_exprs(es: Seq<Expr>) -> Seq<DiagnosticView>
    decreases es,
{
    if es.len() == 0 {
        Seq::empty()
    } else {
        nuf_exprs(es.drop_last()) + nuf_expr(es.last())
    }
}

pub open spec fn nuf_opt_expr(o: Option<Expr>) -> Seq<DiagnosticView>
    decreases o,
{
    match o {
        Some(e) => nuf_expr(e),
        None => Seq::empty(),
    }
}

pub open spec fn nuf_stmt(s: Stmt) -> Seq<DiagnosticView>
    decreases s,
{
    match s {
        Stmt::Expr { expr, .. } => nuf_expr(expr),
        Stmt::VarDecl { inits, .. } => nuf_exprs(inits@),
        Stmt::Return { arg, .. } => nuf_opt_expr(arg),
        Stmt::Throw { value, .. } => nuf_expr(value),
        Stmt::Break { .. } => Seq::empty(),
        Stmt::Continue { .. } => Seq::empty(),
        Stmt::Empty { .. } => Seq::empty(),
        Stmt::TypeDecl { .. } => Seq::empty(),
        Stmt::Block { block } => nuf_stmts(block.stmts@),
        Stmt::Try { stmt } => nuf_try(*stmt),
        Stmt::Switch { disc, cases, .. } => nuf_expr(disc) + nuf_cases(cases@),
    }
}

pub open spec fn nuf_stmts(ss: Seq<Stmt>) -> Seq<DiagnosticView>
    decreases ss,
{
    if ss.len() == 0 {
        Seq::empty()
    } else {
        nuf_stmts(ss.drop_last()) + nuf_stmt(ss.last())
    }
}

pub open spec fn nuf_opt_block(o: Option<BlockStmt>) -> Seq<DiagnosticView>
    decreases o,
{
    match o {
        Some(b) => nuf_stmts(b.stmts@),
        None => Seq::empty(),
    }
}

pub open spec fn nuf_case(c: SwitchCase) -> Seq<DiagnosticView>
    decreases c,
{
    nuf_opt_expr(c.test) + nuf_stmts(c.body@)
}

pub open spec fn nuf_cases(cs: Seq<SwitchCase>) -> Seq<DiagnosticView>
    decreases cs,
{
    if cs.len() == 0 {
        Seq::empty()
    } else {
        nuf_cases(cs.drop_last()) + nuf_case(cs.last())
    }
}

/// Everything the rule emits for one module, in emission order.
pub open spec fn nuf_module(m: Module) -> Seq<DiagnosticView>
    decreases m,
{
    nuf_stmts(m.body@)
}

/// The walker: a per-session diagnostic sink filled by one pre-order
/// traversal.
pub struct NoUnsafeFinallyVisitor {
    pub diagnostics: Vec<Diagnostic>,
}

impl NoUnsafeFinallyVisitor {
    pub fn new() -> (v: NoUnsafeFinallyVisitor)
        ensures
            v.diagnostics@ =~= Seq::<Diagnostic>::empty(),
    {
        NoUnsafeFinallyVisitor { diagnostics: Vec::new() }
    }

    fn add_diagnostic(&mut self, span: Span, message: &str)
        ensures
            final(self).diagnostics.deep_view() == old(self).diagnostics.deep_view()
                .push(nuf_diag(span, message@)),
    {
        let d = Diagnostic::new(span, "no-unsafe-finally", message);
        let ghost d0 = self.diagnostics.deep_view();
        self.diagnostics.push(d);
        proof {
            assert(self.diagnostics.deep_view() =~~= d0.push(nuf_diag(span, message@)));
        }
    }

    /// Flags the direct-child control-transfer statements of one finally
    /// block, at the block's span.
    fn check_finally(&mut self, fin: &BlockStmt)
        ensures
            final(self).diagnostics.deep_view() == old(self).diagnostics.deep_view()
                + finally_violations(*fin),
    {
        let ghost d0 = self.diagnostics.deep_view();
        let ghost ss = fin.stmts@;
        let mut i: usize = 0;
        while i < fin.stmts.len()
            invariant
                0 <= i <= ss.len(),
                ss == fin.stmts@,
                self.diagnostics.deep_view() == d0
                    + finally_list_diags(fin.span, ss.subrange(0, i as int)),
            decreases ss.len() - i,
        {
            proof {
                assert(ss.subrange(0, i as int + 1).drop_last() =~= ss.subrange(0, i as int));
                assert(ss.subrange(0, i as int + 1).last() == ss[i as int]);
            }
            let ghost g0 = self.diagnostics.deep_view();
            let span = fin.span;
            match &fin.stmts[i] {
                Stmt::Break { .. } => {
                    self.add_diagnostic(span, "Unsafe usage of BreakStatement");
                },
                Stmt::Continue { .. } => {
                    self.add_diagnostic(span, "Unsafe usage of ContinueStatement");
                },
                Stmt::Return { .. } => {
                    self.add_diagnostic(span, "Unsafe usage of ReturnStatement");
                },
                Stmt::Throw { .. } => {
                    self.add_diagnostic(span, "Unsafe usage of ThrowStatement");
                },
                _ => {},
            }
            proof {
                match transfer_message(ss[i as int]) {
                    Some(m) => {
                        assert(self.diagnostics.deep_view() == g0.push(nuf_diag(fin.span, m)));
                        assert(g0.push(nuf_diag(fin.span, m))
                            =~= d0 + (finally_list_diags(fin.span, ss.subrange(0, i as int))
                                + seq![nuf_diag(fin.span, m)]));
                    },
                    None => {
                        assert(finally_list_diags(fin.span, ss.subrange(0, i as int + 1))
                            =~= finally_list_diags(fin.span, ss.subrange(0, i as int)));
                    },
                }
            }
            i = i + 1;
        }
        proof {
            assert(ss.subrange(0, ss.len() as int) =~= ss);
        }
        assert(finally_list_diags(fin.span, ss.subrange(0, 0)) =~= Seq::<DiagnosticView>::empty());
        assert(d0 + finally_list_diags(fin.span, ss.subrange(0, 0)) =~= d0);
    }

    fn visit_expr(&mut self, e: &Expr)
        ensures
            final(self).diagnostics.deep_view() == old(self).diagnostics.deep_view()
                + nuf_expr(*e),
        decreases e,
    {
        let ghost d0 = self.diagnostics.deep_view();
        match e {
            Expr::Ident { .. } => {
                assert(d0 + nuf_expr(*e) =~= d0);
            },
            Expr::Lit { .. } => {
                assert(d0 + nuf_expr(*e) =~= d0);
            },
            Expr::Member { obj, .. } => {
                self.visit_expr(obj);
            },
            Expr::Call { callee, args, .. } => {
                self.visit_expr(callee);
                self.visit_exprs(args);
                proof {
                    assert((d0 + nuf_expr(**callee)) + nuf_exprs(args@)
                        =~= d0 + (nuf_expr(**callee) + nuf_exprs(args@)));
                }
            },
            Expr::New { callee, args, .. } => {
                self.visit_expr(callee);
                self.visit_exprs(args);
                proof {
                    assert((d0 + nuf_expr(**callee)) + nuf_exprs(args@)
                        =~= d0 + (nuf_expr(**callee) + nuf_exprs(args@)));
                }
            },
            Expr::Func { body, .. } => {
                self.visit_stmts(body);
            },
        }
    }

    fn visit_exprs(&mut self, es: &Vec<Expr>)
        ensures
            final(self).diagnostics.deep_view() == old(self).diagnostics.deep_view()
                + nuf_exprs(es@),
        decreases es,
    {
        let ghost d0 = self.diagnostics.deep_view();
        let mut i: usize = 0;
        while i < es.len()
            invariant
                0 <= i <= es@.len(),
                self.diagnostics.deep_view() == d0 + nuf_exprs(es@.subrange(0, i as int)),
            decreases es@.len() - i,
        {
            let ghost g0 = self.diagnostics.deep_view();
            self.visit_expr(&es[i]);
            proof {
                assert(es@.subrange(0, i as int + 1).drop_last() =~= es@.subrange(0, i as int));
                assert(es@.subrange(0, i as int + 1).last() == es@[i as int]);
                assert(g0 + nuf_expr(es@[i as int])
                    =~= d0 + (nuf_exprs(es@.subrange(0, i as int)) + nuf_expr(es@[i as int])));
            }
            i = i + 1;
        }
        proof {
            assert(es@.subrange(0, es@.len() as int) =~= es@);
        }
        assert(nuf_exprs(es@.subrange(0, 0)) =~= Seq::<DiagnosticView>::empty());
        assert(d0 + nuf_exprs(es@.subrange(0, 0)) =~= d0);
    }

    fn visit_stmt(&mut self, s: &Stmt)
        ensures
            final(self).diagnostics.deep_view() == old(self).diagnostics.deep_view()
                + nuf_stmt(*s),
        decreases s,
    {
        let ghost d0 = self.diagnostics.deep_view();
        match s {
            Stmt::Expr { expr, .. } => {
                self.visit_expr(expr);
            },
            Stmt::VarDecl { inits, .. } => {
                self.visit_exprs(inits);
            },
            Stmt::Return { arg, .. } => {
                match arg {
                    Some(e) => {
                        self.visit_expr(e);
                    },
                    None => {
                        assert(d0 + nuf_stmt(*s) =~= d0);
                    },
                }
            },
            Stmt::Throw { value, .. } => {
                self.visit_expr(value);
            },
            Stmt::Break { .. } => {
                assert(d0 + nuf_stmt(*s) =~= d0);
            },
            Stmt::Continue { .. } => {
                assert(d0 + nuf_stmt(*s) =~= d0);
            },
            Stmt::Empty { .. } => {
                assert(d0 + nuf_stmt(*s) =~= d0);
            },
            Stmt::TypeDecl { .. } => {
                assert(d0 + nuf_stmt(*s) =~= d0);
            },
            Stmt::Block { block } => {
                self.visit_stmts(&block.stmts);
            },
            Stmt::Try { stmt } => {
                self.visit_try(stmt);
            },
            Stmt::Switch { disc, cases, .. } => {
                self.visit_expr(disc);
                self.visit_cases(cases);
                proof {
                    assert((d0 + nuf_expr(*disc)) + nuf_cases(cases@)
                        =~= d0 + (nuf_expr(*disc) + nuf_cases(cases@)));
                }
            },
        }
    }

    fn visit_stmts(&mut self, ss: &Vec<Stmt>)
        ensures
            final(self).diagnostics.deep_view() == old(self).diagnostics.deep_view()
                + nuf_stmts(ss@),
        decreases ss,
    {
        let ghost d0 = self.diagnostics.deep_view();
        let mut i: usize = 0;
        while i < ss.len()
            invariant
                0 <= i <= ss@.len(),
                self.diagnostics.deep_view() == d0 + nuf_stmts(ss@.subrange(0, i as int)),
            decreases ss@.len() - i,
        {
            let ghost g0 = self.diagnostics.deep_view();
            self.visit_stmt(&ss[i]);
            proof {
                assert(ss@.subrange(0, i as int + 1).drop_last() =~= ss@.subrange(0, i as int));
                assert(ss@.subrange(0, i as int + 1).last() == ss@[i as int]);
                assert(g0 + nuf_stmt(ss@[i as int])
                    =~= d0 + (nuf_stmts(ss@.subrange(0, i as int)) + nuf_stmt(ss@[i as int])));
            }
            i = i + 1;
        }
        proof {
            assert(ss@.subrange(0, ss@.len() as int) =~= ss@);
        }
        assert(nuf_stmts(ss@.subrange(0, 0)) =~= Seq::<DiagnosticView>::empty());
        assert(d0 + nuf_stmts(ss@.subrange(0, 0)) =~= d0);
    }

    /// Visits one try statement: flags its finally block's direct
    /// violations first, then descends into the whole construct.
    fn visit_try(&mut self, t: &TryStmt)
        ensures
            final(self).diagnostics.deep_view() == old(self).diagnostics.deep_view()
                + nuf_try(*t),
        decreases t,
    {
        let ghost d0 = self.diagnostics.deep_view();
        let ghost fv = match &t.finalizer {
            Some(f) => finally_violations(*f),
            None => Seq::<DiagnosticView>::empty(),
        };
        match &t.finalizer {
            Some(finally_block) => {
                self.check_finally(finally_block);
            },
            None => {},
        }
        assert(self.diagnostics.deep_view() =~= d0 + fv);
        let ghost d1 = self.diagnostics.deep_view();
        self.visit_stmts(&t.block.stmts);
        match &t.handler {
            Some(b) => {
                self.visit_stmts(&b.stmts);
            },
            None => {},
        }
        let ghost d2 = self.diagnostics.deep_view();
        match &t.finalizer {
            Some(b) => {
                self.visit_stmts(&b.stmts);
            },
            None => {},
        }
        proof {
            assert(d2 =~= d0 + ((fv + nuf_stmts(t.block.stmts@)) + nuf_opt_block(t.handler)));
            assert(self.diagnostics.deep_view()
                =~= d0 + (((fv + nuf_stmts(t.block.stmts@)) + nuf_opt_block(t.handler))
                    + nuf_opt_block(t.finalizer)));
        }
    }

    fn visit_cases(&mut self, cs: &Vec<SwitchCase>)
        ensures
            final(self).diagnostics.deep_view() == old(self).diagnostics.deep_view()
                + nuf_cases(cs@),
        decreases cs,
    {
        let ghost d0 = self.diagnostics.deep_view();
        let mut i: usize = 0;
        while i < cs.len()
            invariant
                0 <= i <= cs@.len(),
                self.diagnostics.deep_view() == d0 + nuf_cases(cs@.subrange(0, i as int)),
            decreases cs@.len() - i,
        {
            let ghost g0 = self.diagnostics.deep_view();
            let case = &cs[i];
            match &case.test {
                Some(e) => {
                    self.visit_expr(e);
                },
                None => {},
            }
            let ghost g1 = self.diagnostics.deep_view();
            assert(g1 =~= g0 + nuf_opt_expr(cs@[i as int].test));
            self.visit_stmts(&case.body);
            proof {
                assert(cs@.subrange(0, i as int + 1).drop_last() =~= cs@.subrange(0, i as int));
                assert(cs@.subrange(0, i as int + 1).last() == cs@[i as int]);
                assert(self.diagnostics.deep_view()
                    =~= d0 + (nuf_cases(cs@.subrange(0, i as int)) + nuf_case(cs@[i as int])));
            }
            i = i + 1;
        }
        proof {
            assert(cs@.subrange(0, cs@.len() as int) =~= cs@);
        }
        assert(nuf_cases(cs@.subrange(0, 0)) =~= Seq::<DiagnosticView>::empty());
        assert(d0 + nuf_cases(cs@.subrange(0, 0)) =~= d0);
    }

    /// Walks one module, filling the sink with the rule's diagnostics in
    /// emission order.
    pub fn visit_module(&mut self, m: &Module)
        ensures
            final(self).diagnostics.deep_view() == old(self).diagnostics.deep_view()
                + nuf_module(*m),
    {
        self.visit_stmts(&m.body);
    }
}

impl NoUnsafeFinally {
    pub fn new() -> (r: Box<NoUnsafeFinally>) {
        Box::new(NoUnsafeFinally)
    }

    pub fn code(&self) -> (r: &'static str)
        ensures
            r@ == "no-unsafe-finally"@,
    {
        "no-unsafe-finally"
    }

    pub fn tags(&self) -> (r: Vec<&'static str>)
        ensures
            r.deep_view() == seq!["recommended"@],
    {
        let mut v: Vec<&'static str> = Vec::new();
        v.push("recommended");
        proof {
            assert(v.deep_view() =~= seq!["recommended"@]);
        }
        v
    }

    pub fn docs(&self) -> (r: &'static str) {
        "Disallows the use of control flow statements within finally blocks.  \
         Use of the control flow statements (return, throw, break and continue) \
         overrides the usage of any control flow statements that might have been \
         used in the try or catch blocks, which is usually not the desired \
         behaviour."
    }

    /// Emits, for every try statement of the module, one diagnostic per
    /// direct-child control-transfer statement of its finally block, each
    /// anchored at that block's span.
    pub fn lint_module(&self, context: &mut Context, module: &Module)
        ensures
            final(context).diagnostics.deep_view() == old(context).diagnostics.deep_view()
                + nuf_module(*module),
            final(context).source_index == old(context).source_index,
            final(context).directives == old(context).directives,
    {
        let ghost d0 = context.diagnostics.deep_view();
        let mut visitor = NoUnsafeFinallyVisitor::new();
        visitor.visit_module(module);
        proof {
            assert(visitor.diagnostics.deep_view()
                =~= Seq::<DiagnosticView>::empty() + nuf_module(*module));
            assert(visitor.diagnostics.deep_view() =~= nuf_module(*module));
        }
        let ghost vd = visitor.diagnostics.deep_view();
        context.diagnostics.append(&mut visitor.diagnostics);
        proof {
            assert(context.diagnostics.deep_view() =~~= d0 + vd);
        }
    }
}

} // verus!
