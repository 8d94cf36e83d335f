//! A lint execution engine for a scripting-language syntax tree.
//!
//! The engine takes a parsed module — a syntax tree plus the comments the
//! lexer attached to it — runs a set of analysis rules over it, collects
//! violation diagnostics, and removes those that in-source ignore
//! directives suppress.  Parsing itself is the caller's business: the
//! engine never reads source text, only plain values.
//!
//! One run goes: build the line table and the source index, derive the
//! directive index, construct the per-module context, let every selected
//! rule traverse the tree and emit diagnostics, filter the collected list
//! against the directives, and sort what remains by span start, ties
//! broken by rule code.

pub mod span;
pub mod text;
pub mod comments;
pub mod diagnostics;
pub mod directives;
pub mod context;
pub mod ast;
pub mod ban_untagged_ignore;
pub mod ban_ts_comment;
pub mod no_new_symbol;
pub mod no_unsafe_finally;
pub mod suppression;
pub mod runner;
