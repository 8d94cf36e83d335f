//! The syntax-tree model the rules analyze.
//!
//! The external parser's tree is mirrored here as plain values: the node
//! kinds the engine's rules inspect, plus a type-annotation node that the
//! traversal protocol deliberately skips (type syntax cannot contain the
//! runtime violations this engine cares about).  Rules traverse in
//! pre-order, left to right, matching source order.

use vstd::prelude::*;
use crate::span::Span;

verus! {

/// One module: the root of the tree.
pub struct Module {
    pub span: Span,
    pub body: Vec<Stmt>,
}

pub enum Stmt {
    /// An expression statement.
    Expr { span: Span, expr: Expr },
    /// A declaration list; `inits` holds the declarators' initializers.
    VarDecl { span: Span, inits: Vec<Expr> },
    Return { span: Span, arg: Option<Expr> },
    Throw { span: Span, value: Expr },
    Break { span: Span },
    Continue { span: Span },
    Block { block: BlockStmt },
    Try { stmt: Box<TryStmt> },
    Switch { span: Span, disc: Expr, cases: Vec<SwitchCase> },
    Empty { span: Span },
    /// A type-annotation-only statement: its subtree is static type
    /// syntax, which traversal skips.
    TypeDecl { span: Span, ann: TypeAnn },
}

pub enum Expr {
    Ident { span: Span, name: String },
    /// Any atomic literal.
    Lit { span: Span },
    Member { span: Span, obj: Box<Expr>, prop: String },
    Call { span: Span, callee: Box<Expr>, args: Vec<Expr> },
    New { span: Span, callee: Box<Expr>, args: Vec<Expr> },
    /// A function literal; its body is a statement list of its own.
    Func { span: Span, body: Vec<Stmt> },
}

pub struct BlockStmt {
    pub span: Span,
    pub stmts: Vec<Stmt>,
}

pub struct TryStmt {
    pub span: Span,
    pub block: BlockStmt,
    pub handler: Option<BlockStmt>,
    pub finalizer: Option<BlockStmt>,
}

pub struct SwitchCase {
    pub span: Span,
    pub test: Option<Expr>,
    pub body: Vec<Stmt>,
}

/// Static type syntax.  It may syntactically embed expression forms, but
/// no rule traversal descends into them.
pub struct TypeAnn {
    pub span: Span,
    pub exprs: Vec<Expr>,
}

} // verus!
