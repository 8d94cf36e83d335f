//! The per-module lint session context.
//!
//! One context is built per module and handed to every rule: it owns the
//! growing diagnostic list, and read-only views of the source index and
//! the directive index.  Emitting a diagnostic is the only way a rule
//! communicates a finding; no method here can fail.

use vstd::prelude::*;
use crate::span::Span;
use crate::comments::{CommentGroup, SourceIndex};
use crate::diagnostics::{Diagnostic, DiagnosticView};
use crate::directives::IgnoreDirective;

verus! {

pub struct Context {
    pub source_index: SourceIndex,
    pub directives: Vec<IgnoreDirective>,
    pub diagnostics: Vec<Diagnostic>,
}

impl Context {
    /// A fresh session over one module: the given indices, no diagnostics
    /// yet.
    pub fn new(source_index: SourceIndex, directives: Vec<IgnoreDirective>) -> (ctx: Context)
        ensures
            ctx.source_index == source_index,
            ctx.directives == directives,
            ctx.diagnostics@ =~= Seq::<Diagnostic>::empty(),
    {
        Context { source_index, directives, diagnostics: Vec::new() }
    }

    /// Appends one diagnostic; never fails, never deduplicates, and
    /// leaves both indices untouched.
    pub fn add_diagnostic(&mut self, span: Span, code: &str, message: &str)
        ensures
            final(self).diagnostics.deep_view() == old(self).diagnostics.deep_view()
                .push(DiagnosticView { span, code: code@, message: message@ }),
            final(self).source_index == old(self).source_index,
            final(self).directives == old(self).directives,
    {
        let ghost d0 = self.diagnostics.deep_view();
        let d = Diagnostic::new(span, code, message);
        self.diagnostics.push(d);
        proof {
            assert(self.diagnostics.deep_view()
                =~~= d0.push(DiagnosticView { span, code: code@, message: message@ }));
        }
    }

    /// The leading-comment map of the source index.
    pub fn leading_comments(&self) -> (r: &Vec<CommentGroup>)
        ensures
            r.deep_view() == self.source_index@.leading,
    {
        &self.source_index.leading
    }

    /// The trailing-comment map of the source index.
    pub fn trailing_comments(&self) -> (r: &Vec<CommentGroup>)
        ensures
            r.deep_view() == self.source_index@.trailing,
    {
        &self.source_index.trailing
    }

    /// The directive index.
    pub fn ignore_directives(&self) -> (r: &Vec<IgnoreDirective>)
        ensures
            r == &self.directives,
    {
        &self.directives
    }

    /// Drains the session: every diagnostic emitted so far, in emission
    /// order.
    pub fn into_diagnostics(self) -> (r: Vec<Diagnostic>)
        ensures
            r == self.diagnostics,
    {
        self.diagnostics
    }
}

} // verus!
