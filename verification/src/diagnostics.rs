//! Diagnostics: one reported rule violation each.

use vstd::prelude::*;
use crate::span::Span;

verus! {

/// One rule violation: where it was found, the code of the rule that
/// found it, and its message.
pub struct Diagnostic {
    pub span: Span,
    pub code: String,
    pub message: String,
}

pub ghost struct DiagnosticView {
    pub span: Span,
    pub code: Seq<char>,
    pub message: Seq<char>,
}

impl View for Diagnostic {
    type V = DiagnosticView;

    open spec fn view(&self) -> DiagnosticView {
        DiagnosticView { span: self.span, code: self.code@, message: self.message@ }
    }
}

impl DeepView for Diagnostic {
    type V = DiagnosticView;

    open spec fn deep_view(&self) -> DiagnosticView {
        self.view()
    }
}

impl Diagnostic {
    pub fn new(span: Span, code: &str, message: &str) -> (d: Diagnostic)
        ensures
            d@ == (DiagnosticView { span, code: code@, message: message@ }),
    {
        Diagnostic { span, code: code.to_owned(), message: message.to_owned() }
    }
}

} // verus!
