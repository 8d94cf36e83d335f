//! The unsafe-constructor-call rule.
//!
//! Flags every constructor invocation whose callee identifier textually
//! names the reserved non-constructible built-in `Symbol`.  Matching is
//! by identifier name alone, with no scope resolution: a locally shadowed
//! identifier of the same name is deliberately, conservatively flagged.
//! The walk is pre-order, left to right, and skips type-annotation
//! subtrees.

use vstd::prelude::*;
use crate::ast::{Module, Stmt, Expr, BlockStmt, TryStmt, SwitchCase};
use crate::context::Context;
use crate::diagnostics::{Diagnostic, DiagnosticView};
use crate::span::Span;
use crate::text::str_eq;

verus! {

#[derive(Clone, Copy)]
pub struct NoNewSymbol;

/// An identifier expression spelling the reserved name.
pub open spec fn spec_is_symbol_ident(e: Expr) -> bool {
    match e {
        Expr::Ident { name, .. } => name@ == "Symbol"@,
        _ => false,
    }
}

/// The spans of the flagged constructor invocations of an expression, in
/// pre-order.
pub open spec fn nns_expr(e: Expr) -> Seq<Span>
    decreases e,
{
    match e {
        Expr::Ident { .. } => Seq::empty(),
        Expr::Lit { .. } => Seq::empty(),
        Expr::Member { obj, .. } => nns_expr(*obj),
        Expr::Call { callee, args, .. } => nns_expr(*callee) + nns_exprs(args@),
        Expr::New { span, callee, args } => (if spec_is_symbol_ident(*callee) {
            seq![span]
        } else {
            Seq::empty()
        }) + nns_expr(*callee) + nns_exprs(args@),
        Expr::Func { body, .. } => nns_stmts(body@),
    }
}

pub open spec fn nns_exprs(es: Seq<Expr>) -> Seq<Span>
    decreases es,
{
    if es.len() == 0 {
        Seq::empty()
    } else {
        nns_exprs(es.drop_last()) + nns_expr(es.last())
    }
}

pub open spec fn nns_opt_expr(o: Option<Expr>) -> Seq<Span>
    decreases o,
{
    match o {
        Some(e) => nns_expr(e),
        None => Seq::empty(),
    }
}

pub open spec fn nns_stmt(s: Stmt) -> Seq<Span>
    decreases s,
{
    match s {
        Stmt::Expr { expr, .. } => nns_expr(expr),
        Stmt::VarDecl { inits, .. } => nns_exprs(inits@),
        Stmt::Return { arg, .. } => nns_opt_expr(arg),
        Stmt::Throw { value, .. } => nns_expr(value),
        Stmt::Break { .. } => Seq::empty(),
        Stmt::Continue { .. } => Seq::empty(),
        Stmt::Empty { .. } => Seq::empty(),
        Stmt::TypeDecl { .. } => Seq::empty(),
        Stmt::Block { block } => nns_stmts(block.stmts@),
        Stmt::Try { stmt } => nns_try(*stmt),
        Stmt::Switch { disc, cases, .. } => nns_expr(disc) + nns_cases(cases@),
    }
}

pub open spec fn nns_stmts(ss: Seq<Stmt>) -> Seq<Span>
    decreases ss,
{
    if ss.len() == 0 {
        Seq::empty()
    } else {
        nns_stmts(ss.drop_last()) + nns_stmt(ss.last())
    }
}

pub open spec fn nns_try(t: TryStmt) -> Seq<Span>
    decreases t,
{
    nns_stmts(t.block.stmts@) + nns_opt_block(t.handler) + nns_opt_block(t.finalizer)
}

pub open spec fn nns_opt_block(o: Option<BlockStmt>) -> Seq<Span>
    decreases o,
{
    match o {
        Some(b) => nns_stmts(b.stmts@),
        None => Seq::empty(),
    }
}

pub open spec fn nns_case(c: SwitchCase) -> Seq<Span>
    decreases c,
{
    nns_opt_expr(c.test) + nns_stmts(c.body@)
}

pub open spec fn nns_cases(cs: Seq<SwitchCase>) -> Seq<Span>
    decreases cs,
{
    if cs.len() == 0 {
        Seq::empty()
    } else {
        nns_cases(cs.drop_last()) + nns_case(cs.last())
    }
}

/// The spans the rule flags in one module, in pre-order.
pub open spec fn nns_module(m: Module) -> Seq<Span>
    decreases m,
{
    nns_stmts(m.body@)
}

/// The rule's diagnostic at one span.
pub open spec fn nns_diag(span: Span) -> DiagnosticView {
    DiagnosticView {
        span,
        code: "no-new-symbol"@,
        message: "`Symbol` cannot be called as a constructor."@,
    }
}

/// One rule diagnostic per flagged span, in span order.
pub open spec fn nns_diags(sp: Seq<Span>) -> Seq<DiagnosticView>
    decreases sp.len(),
{
    if sp.len() == 0 {
        Seq::empty()
    } else {
        nns_diags(sp.drop_last()).push(nns_diag(sp.last()))
    }
}

pub proof fn lemma_nns_diags_app(a: Seq<Span>, b: Seq<Span>)
    ensures
        nns_diags(a + b) == nns_diags(a) + nns_diags(b),
    decreases b.len(),
{
    if b.len() == 0 {
        assert(a + b =~= a);
        assert(nns_diags(a) + nns_diags(b) =~= nns_diags(a));
    } else {
        lemma_nns_diags_app(a, b.drop_last());
        assert((a + b).drop_last() =~= a + b.drop_last());
        assert((a + b).last() == b.last());
        assert((nns_diags(a) + nns_diags(b.drop_last())).push(nns_diag(b.last()))
            =~= nns_diags(a) + nns_diags(b.drop_last()).push(nns_diag(b.last())));
    }
}

/// The walker: a per-session diagnostic sink filled by one pre-order
/// traversal.
pub struct NoNewSymbolVisitor {
    pub diagnostics: Vec<Diagnostic>,
}

impl NoNewSymbolVisitor {
    pub fn new() -> (v: NoNewSymbolVisitor)
        ensures
            v.diagnostics@ =~= Seq::<Diagnostic>::empty(),
    {
        NoNewSymbolVisitor { diagnostics: Vec::new() }
    }

    fn visit_expr(&mut self, e: &Expr)
        ensures
            final(self).diagnostics.deep_view() == old(self).diagnostics.deep_view()
                + nns_diags(nns_expr(*e)),
        decreases e,
    {
        let ghost d0 = self.diagnostics.deep_view();
        match e {
            Expr::Ident { .. } => {
                assert(d0 + nns_diags(nns_expr(*e)) =~= d0);
            },
            Expr::Lit { .. } => {
                assert(d0 + nns_diags(nns_expr(*e)) =~= d0);
            },
            Expr::Member { obj, .. } => {
                self.visit_expr(obj);
            },
            Expr::Call { callee, args, .. } => {
                self.visit_expr(callee);
                self.visit_exprs(args);
                proof {
                    lemma_nns_diags_app(nns_expr(**callee), nns_exprs(args@));
                    assert((d0 + nns_diags(nns_expr(**callee))) + nns_diags(nns_exprs(args@))
                        =~= d0 + (nns_diags(nns_expr(**callee)) + nns_diags(nns_exprs(args@))));
                }
            },
            Expr::New { span, callee, args } => {
                let ghost hit = if spec_is_symbol_ident(**callee) {
                    seq![*span]
                } else {
                    Seq::<Span>::empty()
                };
                let flagged = match &**callee {
                    Expr::Ident { name, .. } => str_eq(name.as_str(), "Symbol"),
                    _ => false,
                };
                if flagged {
                    let d = Diagnostic::new(*span, "no-new-symbol",
                        "`Symbol` cannot be called as a constructor.");
                    self.diagnostics.push(d);
                    proof {
                        let dg = nns_diag(*span);
                        assert(self.diagnostics.deep_view() =~~= d0.push(dg));
                        assert(seq![*span].drop_last() =~= Seq::<Span>::empty());
                        assert(nns_diags(seq![*span])
                            == nns_diags(seq![*span].drop_last()).push(dg));
                        assert(nns_diags(seq![*span].drop_last())
                            =~= Seq::<DiagnosticView>::empty());
                        assert(d0.push(dg) =~= d0 + Seq::<DiagnosticView>::empty().push(dg));
                        assert(self.diagnostics.deep_view() =~= d0 + nns_diags(hit));
                    }
                } else {
                    proof {
                        assert(d0 + nns_diags(hit) =~= d0);
                    }
                }
                let ghost d1 = self.diagnostics.deep_view();
                self.visit_expr(callee);
                self.visit_exprs(args);
                proof {
                    lemma_nns_diags_app(hit, nns_expr(**callee));
                    lemma_nns_diags_app(hit + nns_expr(**callee), nns_exprs(args@));
                    assert(nns_expr(*e) == (hit + nns_expr(**callee)) + nns_exprs(args@));
                    assert(self.diagnostics.deep_view()
                        =~= d0 + (nns_diags(hit) + nns_diags(nns_expr(**callee))
                            + nns_diags(nns_exprs(args@))));
                }
            },
            Expr::Func { body, .. } => {
                self.visit_stmts(body);
            },
        }
    }

    fn visit_exprs(&mut self, es: &Vec<Expr>)
        ensures
            final(self).diagnostics.deep_view() == old(self).diagnostics.deep_view()
                + nns_diags(nns_exprs(es@)),
        decreases es,
    {
        let ghost d0 = self.diagnostics.deep_view();
        let mut i: usize = 0;
        while i < es.len()
            invariant
                0 <= i <= es@.len(),
                self.diagnostics.deep_view() == d0 + nns_diags(nns_exprs(es@.subrange(0, i as int))),
            decreases es@.len() - i,
        {
            proof {
                assert(nns_diags(nns_exprs(es@.subrange(0, 0))) =~= Seq::<DiagnosticView>::empty());
            }
            let ghost g0 = self.diagnostics.deep_view();
            self.visit_expr(&es[i]);
            proof {
                assert(es@.subrange(0, i as int + 1).drop_last() =~= es@.subrange(0, i as int));
                assert(es@.subrange(0, i as int + 1).last() == es@[i as int]);
                lemma_nns_diags_app(nns_exprs(es@.subrange(0, i as int)), nns_expr(es@[i as int]));
                assert(nns_exprs(es@.subrange(0, i as int + 1))
                    == nns_exprs(es@.subrange(0, i as int)) + nns_expr(es@[i as int]));
                assert(g0 + nns_diags(nns_expr(es@[i as int]))
                    =~= d0 + (nns_diags(nns_exprs(es@.subrange(0, i as int)))
                        + nns_diags(nns_expr(es@[i as int]))));
            }
            i = i + 1;
        }
        proof {
            assert(es@.subrange(0, es@.len() as int) =~= es@);
        }
        assert(nns_diags(nns_exprs(es@.subrange(0, 0))) =~= Seq::<DiagnosticView>::empty());
        assert(d0 + nns_diags(nns_exprs(es@.subrange(0, 0))) =~= d0);
    }

    fn visit_stmt(&mut self, s: &Stmt)
        ensures
            final(self).diagnostics.deep_view() == old(self).diagnostics.deep_view()
                + nns_diags(nns_stmt(*s)),
        decreases s,
    {
        let ghost d0 = self.diagnostics.deep_view();
        match s {
            Stmt::Expr { expr, .. } => {
                self.visit_expr(expr);
            },
            Stmt::VarDecl { inits, .. } => {
                self.visit_exprs(inits);
            },
            Stmt::Return { arg, .. } => {
                match arg {
                    Some(e) => {
                        self.visit_expr(e);
                    },
                    None => {
                        assert(d0 + nns_diags(nns_stmt(*s)) =~= d0);
                    },
                }
            },
            Stmt::Throw { value, .. } => {
                self.visit_expr(value);
            },
            Stmt::Break { .. } => {
                assert(d0 + nns_diags(nns_stmt(*s)) =~= d0);
            },
            Stmt::Continue { .. } => {
                assert(d0 + nns_diags(nns_stmt(*s)) =~= d0);
            },
            Stmt::Empty { .. } => {
                assert(d0 + nns_diags(nns_stmt(*s)) =~= d0);
            },
            Stmt::TypeDecl { .. } => {
                assert(d0 + nns_diags(nns_stmt(*s)) =~= d0);
            },
            Stmt::Block { block } => {
                self.visit_stmts(&block.stmts);
            },
            Stmt::Try { stmt } => {
                self.visit_try(stmt);
            },
            Stmt::Switch { disc, cases, .. } => {
                self.visit_expr(disc);
                self.visit_cases(cases);
                proof {
                    lemma_nns_diags_app(nns_expr(*disc), nns_cases(cases@));
                    assert((d0 + nns_diags(nns_expr(*disc))) + nns_diags(nns_cases(cases@))
                        =~= d0 + (nns_diags(nns_expr(*disc)) + nns_diags(nns_cases(cases@))));
                }
            },
        }
    }

    fn visit_stmts(&mut self, ss: &Vec<Stmt>)
        ensures
            final(self).diagnostics.deep_view() == old(self).diagnostics.deep_view()
                + nns_diags(nns_stmts(ss@)),
        decreases ss,
    {
        let ghost d0 = self.diagnostics.deep_view();
        let mut i: usize = 0;
        while i < ss.len()
            invariant
                0 <= i <= ss@.len(),
                self.diagnostics.deep_view() == d0 + nns_diags(nns_stmts(ss@.subrange(0, i as int))),
            decreases ss@.len() - i,
        {
            let ghost g0 = self.diagnostics.deep_view();
            self.visit_stmt(&ss[i]);
            proof {
                assert(ss@.subrange(0, i as int + 1).drop_last() =~= ss@.subrange(0, i as int));
                assert(ss@.subrange(0, i as int + 1).last() == ss@[i as int]);
                lemma_nns_diags_app(nns_stmts(ss@.subrange(0, i as int)), nns_stmt(ss@[i as int]));
                assert(nns_stmts(ss@.subrange(0, i as int + 1))
                    == nns_stmts(ss@.subrange(0, i as int)) + nns_stmt(ss@[i as int]));
                assert(g0 + nns_diags(nns_stmt(ss@[i as int]))
                    =~= d0 + (nns_diags(nns_stmts(ss@.subrange(0, i as int)))
                        + nns_diags(nns_stmt(ss@[i as int]))));
            }
            i = i + 1;
        }
        proof {
            assert(ss@.subrange(0, ss@.len() as int) =~= ss@);
        }
        assert(nns_diags(nns_stmts(ss@.subrange(0, 0))) =~= Seq::<DiagnosticView>::empty());
        assert(d0 + nns_diags(nns_stmts(ss@.subrange(0, 0))) =~= d0);
    }

    fn visit_try(&mut self, t: &TryStmt)
        ensures
            final(self).diagnostics.deep_view() == old(self).diagnostics.deep_view()
                + nns_diags(nns_try(*t)),
        decreases t,
    {
        let ghost d0 = self.diagnostics.deep_view();
        self.visit_stmts(&t.block.stmts);
        match &t.handler {
            Some(b) => {
                self.visit_stmts(&b.stmts);
            },
            None => {},
        }
        let ghost d2 = self.diagnostics.deep_view();
        match &t.finalizer {
            Some(b) => {
                self.visit_stmts(&b.stmts);
            },
            None => {},
        }
        proof {
            lemma_nns_diags_app(nns_stmts(t.block.stmts@), nns_opt_block(t.handler));
            lemma_nns_diags_app(nns_stmts(t.block.stmts@) + nns_opt_block(t.handler),
                nns_opt_block(t.finalizer));
            assert(d2 =~= d0 + (nns_diags(nns_stmts(t.block.stmts@))
                + nns_diags(nns_opt_block(t.handler))));
            assert(self.diagnostics.deep_view()
                =~= d0 + ((nns_diags(nns_stmts(t.block.stmts@))
                    + nns_diags(nns_opt_block(t.handler)))
                    + nns_diags(nns_opt_block(t.finalizer))));
        }
    }

    fn visit_cases(&mut self, cs: &Vec<SwitchCase>)
        ensures
            final(self).diagnostics.deep_view() == old(self).diagnostics.deep_view()
                + nns_diags(nns_cases(cs@)),
        decreases cs,
    {
        let ghost d0 = self.diagnostics.deep_view();
        let mut i: usize = 0;
        while i < cs.len()
            invariant
                0 <= i <= cs@.len(),
                self.diagnostics.deep_view() == d0 + nns_diags(nns_cases(cs@.subrange(0, i as int))),
            decreases cs@.len() - i,
        {
            let ghost g0 = self.diagnostics.deep_view();
            let case = &cs[i];
            match &case.test {
                Some(e) => {
                    self.visit_expr(e);
                },
                None => {},
            }
            let ghost g1 = self.diagnostics.deep_view();
            self.visit_stmts(&case.body);
            proof {
                assert(cs@.subrange(0, i as int + 1).drop_last() =~= cs@.subrange(0, i as int));
                assert(cs@.subrange(0, i as int + 1).last() == cs@[i as int]);
                lemma_nns_diags_app(nns_opt_expr(cs@[i as int].test), nns_stmts(cs@[i as int].body@));
                assert(g1 =~= g0 + nns_diags(nns_opt_expr(cs@[i as int].test)));
                lemma_nns_diags_app(nns_cases(cs@.subrange(0, i as int)), nns_case(cs@[i as int]));
                assert(nns_cases(cs@.subrange(0, i as int + 1))
                    == nns_cases(cs@.subrange(0, i as int)) + nns_case(cs@[i as int]));
                assert(self.diagnostics.deep_view()
                    =~= d0 + (nns_diags(nns_cases(cs@.subrange(0, i as int)))
                        + nns_diags(nns_case(cs@[i as int]))));
            }
            i = i + 1;
        }
        proof {
            assert(cs@.subrange(0, cs@.len() as int) =~= cs@);
        }
        assert(nns_diags(nns_cases(cs@.subrange(0, 0))) =~= Seq::<DiagnosticView>::empty());
        assert(d0 + nns_diags(nns_cases(cs@.subrange(0, 0))) =~= d0);
    }

    /// Walks one module, filling the sink with the rule's diagnostics in
    /// pre-order.
    pub fn visit_module(&mut self, m: &Module)
        ensures
            final(self).diagnostics.deep_view() == old(self).diagnostics.deep_view()
                + nns_diags(nns_module(*m)),
    {
        self.visit_stmts(&m.body);
    }
}

impl NoNewSymbol {
    pub fn new() -> (r: Box<NoNewSymbol>) {
        Box::new(NoNewSymbol)
    }

    pub fn code(&self) -> (r: &'static str)
        ensures
            r@ == "no-new-symbol"@,
    {
        "no-new-symbol"
    }

    pub fn tags(&self) -> (r: Vec<&'static str>)
        ensures
            r.deep_view() == seq!["recommended"@],
    {
        let mut v: Vec<&'static str> = Vec::new();
        v.push("recommended");
        proof {
            assert(v.deep_view() =~= seq!["recommended"@]);
        }
        v
    }

    pub fn docs(&self) -> (r: &'static str) {
        ""
    }

    /// Emits one diagnostic per flagged constructor invocation of the
    /// module, in pre-order.
    pub fn lint_module(&self, context: &mut Context, module: &Module)
        ensures
            final(context).diagnostics.deep_view() == old(context).diagnostics.deep_view()
                + nns_diags(nns_module(*module)),
            final(context).source_index == old(context).source_index,
            final(context).directives == old(context).directives,
    {
        let ghost d0 = context.diagnostics.deep_view();
        let mut visitor = NoNewSymbolVisitor::new();
        visitor.visit_module(module);
        proof {
            assert(visitor.diagnostics.deep_view()
                =~= Seq::<DiagnosticView>::empty() + nns_diags(nns_module(*module)));
            assert(visitor.diagnostics.deep_view() =~= nns_diags(nns_module(*module)));
        }
        let ghost vd = visitor.diagnostics.deep_view();
        context.diagnostics.append(&mut visitor.diagnostics);
        proof {
            assert(context.diagnostics.deep_view() =~~= d0 + vd);
        }
    }
}

} // verus!
