//! Comments and the source index.
//!
//! The external lexer attaches every comment of the token stream to a
//! syntax-tree node, either leading or trailing.  The source index keeps
//! those attachments as two position-keyed maps, built once per module
//! and read-only afterwards; it is the only window the rules have into
//! the comment stream.

use vstd::prelude::*;
use crate::span::Span;

verus! {

#[derive(Clone, Copy, PartialEq, Eq, Structural, Debug)]
pub enum CommentKind {
    Line,
    Block,
}

/// One comment of the original token stream.  `text` is the body alone:
/// without the `//` of a line comment, without the delimiters of a block
/// comment.
pub struct Comment {
    pub span: Span,
    pub kind: CommentKind,
    pub text: String,
}

pub ghost struct CommentView {
    pub span: Span,
    pub kind: CommentKind,
    pub text: Seq<char>,
}

impl View for Comment {
    type V = CommentView;

    open spec fn view(&self) -> CommentView {
        CommentView { span: self.span, kind: self.kind, text: self.text@ }
    }
}

impl DeepView for Comment {
    type V = CommentView;

    open spec fn deep_view(&self) -> CommentView {
        self.view()
    }
}

impl Comment {
    pub fn new(span: Span, kind: CommentKind, text: String) -> (c: Comment)
        ensures
            c@ == (CommentView { span, kind, text: text@ }),
    {
        Comment { span, kind, text }
    }
}

/// The comments attached to one syntax-tree position.
pub struct CommentGroup {
    pub anchor: usize,
    pub comments: Vec<Comment>,
}

pub ghost struct CommentGroupView {
    pub anchor: usize,
    pub comments: Seq<CommentView>,
}

impl View for CommentGroup {
    type V = CommentGroupView;

    open spec fn view(&self) -> CommentGroupView {
        CommentGroupView { anchor: self.anchor, comments: self.comments.deep_view() }
    }
}

impl DeepView for CommentGroup {
    type V = CommentGroupView;

    open spec fn deep_view(&self) -> CommentGroupView {
        self.view()
    }
}

impl CommentGroup {
    pub fn new(anchor: usize, comments: Vec<Comment>) -> (g: CommentGroup)
        ensures
            g@ == (CommentGroupView { anchor, comments: comments.deep_view() }),
    {
        CommentGroup { anchor, comments }
    }
}

/// The source index: the leading and the trailing comment map of one
/// module, each a list of anchor-keyed groups.
pub struct SourceIndex {
    pub leading: Vec<CommentGroup>,
    pub trailing: Vec<CommentGroup>,
}

pub ghost struct SourceIndexView {
    pub leading: Seq<CommentGroupView>,
    pub trailing: Seq<CommentGroupView>,
}

impl View for SourceIndex {
    type V = SourceIndexView;

    open spec fn view(&self) -> SourceIndexView {
        SourceIndexView { leading: self.leading.deep_view(), trailing: self.trailing.deep_view() }
    }
}

impl SourceIndex {
    pub fn new(leading: Vec<CommentGroup>, trailing: Vec<CommentGroup>) -> (idx: SourceIndex)
        ensures
            idx@.leading == leading.deep_view(),
            idx@.trailing == trailing.deep_view(),
    {
        SourceIndex { leading, trailing }
    }
}

/// All comments of a group list, in group order.
pub open spec fn flatten_groups(gs: Seq<CommentGroupView>) -> Seq<CommentView>
    decreases gs.len(),
{
    if gs.len() == 0 {
        Seq::empty()
    } else {
        flatten_groups(gs.drop_last()) + gs.last().comments
    }
}

/// Every comment the index holds: the leading comments first, then the
/// trailing ones, each part in group order.
pub open spec fn all_comments(idx: SourceIndexView) -> Seq<CommentView> {
    flatten_groups(idx.leading) + flatten_groups(idx.trailing)
}

} // verus!
