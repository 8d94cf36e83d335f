use deno_lint::ast::{Expr, Module, Stmt, TypeAnn};
use deno_lint::comments::{Comment, CommentGroup, CommentKind, SourceIndex};
use deno_lint::context::Context;
use deno_lint::diagnostics::Diagnostic;
use deno_lint::directives::{build_directive_index, DirectiveScope};
use deno_lint::runner::{all_rules, lint_module, select_rules, sort_diagnostics, LintRule};
use deno_lint::ban_ts_comment::BanTsComment;
use deno_lint::ban_untagged_ignore::BanUntaggedIgnore;
use deno_lint::no_new_symbol::NoNewSymbol;
use deno_lint::span::{compute_line_starts, line_col, line_of, Span};
use deno_lint::text::{is_ts_directive, parse_tokens};

fn line_comment_at(src: &str, marker: &str) -> Comment {
    let lo = src.find(marker).expect("marker not in source");
    let rest = &src[lo..];
    let end = rest.find('\n').map(|e| lo + e).unwrap_or(src.len());
    Comment::new(Span::new(lo, end), CommentKind::Line, src[lo + 2..end].to_string())
}

fn index_with(leading: Vec<Comment>) -> SourceIndex {
    SourceIndex::new(vec![CommentGroup::new(0, leading)], vec![])
}

fn symbol_module(src: &str) -> Module {
    let lo = src.find("new Symbol()").expect("no new-expression in source");
    Module {
        span: Span { lo: 0, hi: src.len() },
        body: vec![Stmt::Expr {
            span: Span { lo, hi: lo + 12 },
            expr: Expr::New {
                span: Span { lo, hi: lo + 12 },
                callee: Box::new(Expr::Ident {
                    span: Span { lo: lo + 4, hi: lo + 10 },
                    name: "Symbol".to_string(),
                }),
                args: vec![],
            },
        }],
    }
}

fn diags_eq(a: &[Diagnostic], b: &[Diagnostic]) -> bool {
    a.len() == b.len()
        && a.iter().zip(b.iter()).all(|(x, y)| {
            x.span == y.span && x.code == y.code && x.message == y.message
        })
}

#[test]
fn line_table_exact_values() {
    let src = "ab\ncd\n\nef";
    let ls = compute_line_starts(&src.as_bytes().to_vec());
    assert_eq!(ls, vec![0, 3, 6, 7]);
    assert_eq!(line_of(&ls, 0), 0);
    assert_eq!(line_of(&ls, 2), 0);
    assert_eq!(line_of(&ls, 3), 1);
    assert_eq!(line_of(&ls, 6), 2);
    assert_eq!(line_of(&ls, 8), 3);
    assert_eq!(line_col(&ls, 4), (2, 1));
}

#[test]
fn ts_directive_match_is_full_line() {
    assert!(is_ts_directive(" @ts-ignore"));
    assert!(is_ts_directive("@ts-expect-error"));
    assert!(is_ts_directive("\t@ts-nocheck"));
    assert!(!is_ts_directive(" @ts-ignore: reason"));
    assert!(!is_ts_directive("foo @ts-ignore bar"));
    assert!(!is_ts_directive(" @ts-check"));
    assert!(!is_ts_directive(" @ts-ignored"));
}

#[test]
fn directive_tokens_split_on_whitespace() {
    let toks = parse_tokens(" some-code  some-code-2 ", 0);
    assert_eq!(toks.len(), 2);
    assert_eq!(toks[0].iter().collect::<String>(), "some-code");
    assert_eq!(toks[1].iter().collect::<String>(), "some-code-2");
    assert_eq!(parse_tokens("   ", 0).len(), 0);
}

#[test]
fn directive_index_scopes_and_codes() {
    let src = "// deno-lint-ignore no-new-symbol\nlet x;\n// deno-lint-ignore\nlet y;";
    let first = line_comment_at(src, "// deno-lint-ignore no-new-symbol");
    let second = line_comment_at(src, "// deno-lint-ignore\n");
    let ls = compute_line_starts(&src.as_bytes().to_vec());
    let not_a_directive = Comment::new(
        Span::new(0, 21),
        CommentKind::Line,
        " deno-lint-ignored x".to_string(),
    );
    let dirs = build_directive_index(&index_with(vec![first, second, not_a_directive]), &ls);
    assert_eq!(dirs.len(), 2);
    assert_eq!(dirs[0].scope, DirectiveScope::FileLevel);
    assert_eq!(dirs[0].codes.len(), 1);
    assert_eq!(dirs[0].codes[0].iter().collect::<String>(), "no-new-symbol");
    assert_eq!(dirs[1].scope, DirectiveScope::LineLevel);
    assert_eq!(dirs[1].codes.len(), 0);
}

#[test]
fn line_directive_suppresses_next_line_only() {
    // The directive sits on line 2, so it suppresses line 3, where the
    // violation stands: the diagnostic disappears without a trace.
    let src = "let a;\n// deno-lint-ignore no-new-symbol\nnew Symbol()";
    let directive = line_comment_at(src, "// deno-lint-ignore");
    let ls = compute_line_starts(&src.as_bytes().to_vec());
    let module = symbol_module(src);
    let diags = lint_module(
        &vec![LintRule::NoNewSymbol(NoNewSymbol)],
        &module,
        index_with(vec![directive]),
        &ls,
    );
    assert_eq!(diags.len(), 0);
}

#[test]
fn line_directive_with_other_code_does_not_suppress() {
    let src = "let a;\n// deno-lint-ignore ban-ts-comment\nnew Symbol()";
    let directive = line_comment_at(src, "// deno-lint-ignore");
    let ls = compute_line_starts(&src.as_bytes().to_vec());
    let module = symbol_module(src);
    let diags = lint_module(
        &vec![LintRule::NoNewSymbol(NoNewSymbol)],
        &module,
        index_with(vec![directive]),
        &ls,
    );
    assert_eq!(diags.len(), 1);
    assert_eq!(diags[0].code, "no-new-symbol");
}

#[test]
fn line_directive_does_not_suppress_its_own_line() {
    let src = "let a;\n// deno-lint-ignore no-new-symbol\nlet b;\nnew Symbol()";
    let directive = line_comment_at(src, "// deno-lint-ignore");
    let ls = compute_line_starts(&src.as_bytes().to_vec());
    let module = symbol_module(src);
    let diags = lint_module(
        &vec![LintRule::NoNewSymbol(NoNewSymbol)],
        &module,
        index_with(vec![directive]),
        &ls,
    );
    assert_eq!(diags.len(), 1);
}

#[test]
fn file_directive_suppresses_everywhere() {
    // A directive on the first line has file scope: with an empty code
    // list it silences every diagnostic of the module.
    let src = "// deno-lint-ignore\nlet a;\nnew Symbol()\n// @ts-ignore";
    let directive = line_comment_at(src, "// deno-lint-ignore");
    let ts = line_comment_at(src, "// @ts-ignore");
    let ls = compute_line_starts(&src.as_bytes().to_vec());
    let module = symbol_module(src);
    let diags = lint_module(
        &vec![
            LintRule::NoNewSymbol(NoNewSymbol),
            LintRule::BanTsComment(BanTsComment),
        ],
        &module,
        index_with(vec![directive, ts]),
        &ls,
    );
    // The untagged directive itself goes unflagged here because its rule
    // was not selected for this run.
    assert_eq!(diags.len(), 0);
}

#[test]
fn output_is_sorted_by_span_then_code() {
    // Two rules emit at different spans; the runner interleaves their
    // output by span start, not by rule order.
    let src = "// @ts-ignore\nnew Symbol()";
    let ts = line_comment_at(src, "// @ts-ignore");
    let ls = compute_line_starts(&src.as_bytes().to_vec());
    let module = symbol_module(src);
    let diags = lint_module(
        &vec![
            LintRule::NoNewSymbol(NoNewSymbol),
            LintRule::BanTsComment(BanTsComment),
        ],
        &module,
        index_with(vec![ts]),
        &ls,
    );
    assert_eq!(diags.len(), 2);
    assert_eq!(diags[0].code, "ban-ts-comment");
    assert_eq!(diags[1].code, "no-new-symbol");
    assert!(diags[0].span.lo <= diags[1].span.lo);
}

#[test]
fn sort_breaks_span_ties_by_code() {
    let d1 = Diagnostic::new(Span { lo: 5, hi: 9 }, "zed-rule", "z");
    let d2 = Diagnostic::new(Span { lo: 5, hi: 9 }, "alpha-rule", "a");
    let d3 = Diagnostic::new(Span { lo: 1, hi: 2 }, "mid-rule", "m");
    let sorted = sort_diagnostics(vec![d1, d2, d3]);
    assert_eq!(sorted[0].code, "mid-rule");
    assert_eq!(sorted[1].code, "alpha-rule");
    assert_eq!(sorted[2].code, "zed-rule");
}

#[test]
fn pipeline_is_idempotent() {
    // Two full runs on an unchanged (tree, comment-stream) pair yield
    // identical diagnostic lists.
    let src = "// deno-lint-ignore\n// @ts-ignore\nnew Symbol()";
    let directive = line_comment_at(src, "// deno-lint-ignore");
    let ts = line_comment_at(src, "// @ts-ignore");
    let ls = compute_line_starts(&src.as_bytes().to_vec());
    let rules = all_rules();
    let first = lint_module(
        &rules,
        &symbol_module(src),
        index_with(vec![
            line_comment_at(src, "// deno-lint-ignore"),
            line_comment_at(src, "// @ts-ignore"),
        ]),
        &ls,
    );
    let second = lint_module(
        &rules,
        &symbol_module(src),
        index_with(vec![directive, ts]),
        &ls,
    );
    assert!(diags_eq(&first, &second));
}

#[test]
fn registry_selection_by_tag_and_code() {
    let catalog = all_rules();
    assert_eq!(catalog.len(), 4);

    let recommended = select_rules(
        &catalog,
        &vec!["recommended".to_string()],
        &vec![],
        &vec![],
    );
    assert_eq!(recommended.len(), 4);

    let none = select_rules(&catalog, &vec![], &vec![], &vec![]);
    assert_eq!(none.len(), 0);

    let one = select_rules(
        &catalog,
        &vec![],
        &vec!["no-new-symbol".to_string()],
        &vec![],
    );
    assert_eq!(one.len(), 1);
    assert_eq!(one[0].code(), "no-new-symbol");

    let minus = select_rules(
        &catalog,
        &vec!["recommended".to_string()],
        &vec![],
        &vec!["ban-ts-comment".to_string()],
    );
    assert_eq!(minus.len(), 3);
}

#[test]
fn untagged_directive_diagnostic_survives_own_suppression() {
    // An untagged line directive suppresses the following line, never its
    // own, so the untagged-suppression rule still reports it.
    let src = "let a;\n// deno-lint-ignore\nlet b;";
    let directive = line_comment_at(src, "// deno-lint-ignore");
    let ls = compute_line_starts(&src.as_bytes().to_vec());
    let module = Module { span: Span { lo: 0, hi: src.len() }, body: vec![] };
    let diags = lint_module(
        &vec![LintRule::BanUntaggedIgnore(BanUntaggedIgnore)],
        &module,
        index_with(vec![directive]),
        &ls,
    );
    assert_eq!(diags.len(), 1);
    assert_eq!(diags[0].code, "ban-untagged-ignore");
    let (l, c) = line_col(&ls, diags[0].span.lo);
    assert_eq!((l, c), (2, 0));
}

#[test]
fn type_annotation_subtrees_are_skipped() {
    // A constructor invocation buried in type syntax is not a runtime
    // violation: the traversal protocol never descends into it.
    let z = Span { lo: 0, hi: 0 };
    let module = Module {
        span: z,
        body: vec![Stmt::TypeDecl {
            span: z,
            ann: TypeAnn {
                span: z,
                exprs: vec![Expr::New {
                    span: z,
                    callee: Box::new(Expr::Ident { span: z, name: "Symbol".to_string() }),
                    args: vec![],
                }],
            },
        }],
    };
    let ls = compute_line_starts(&b"x".to_vec());
    let diags = lint_module(
        &vec![LintRule::NoNewSymbol(NoNewSymbol)],
        &module,
        index_with(vec![]),
        &ls,
    );
    assert_eq!(diags.len(), 0);
}

#[test]
fn context_owns_indices_and_diagnostics() {
    let src = "// deno-lint-ignore\nlet x;";
    let directive = line_comment_at(src, "// deno-lint-ignore");
    let ls = compute_line_starts(&src.as_bytes().to_vec());
    let idx = index_with(vec![directive]);
    let dirs = build_directive_index(&idx, &ls);
    let mut ctx = Context::new(idx, dirs);
    assert_eq!(ctx.leading_comments().len(), 1);
    assert_eq!(ctx.trailing_comments().len(), 0);
    assert_eq!(ctx.ignore_directives().len(), 1);
    ctx.add_diagnostic(Span { lo: 3, hi: 4 }, "some-rule", "a finding");
    let drained = ctx.into_diagnostics();
    assert_eq!(drained.len(), 1);
    assert_eq!(drained[0].code, "some-rule");
    assert_eq!(drained[0].message, "a finding");
    assert_eq!(drained[0].span, Span { lo: 3, hi: 4 });
}

#[test]
fn nested_constructor_arguments_are_walked() {
    // The reserved name is flagged wherever the pre-order walk finds it,
    // here as an argument of an unrelated constructor invocation.
    let z = Span { lo: 0, hi: 0 };
    let inner = Expr::New {
        span: Span { lo: 8, hi: 20 },
        callee: Box::new(Expr::Ident { span: z, name: "Symbol".to_string() }),
        args: vec![],
    };
    let module = Module {
        span: z,
        body: vec![Stmt::Expr {
            span: z,
            expr: Expr::New {
                span: Span { lo: 0, hi: 21 },
                callee: Box::new(Expr::Ident { span: z, name: "Foo".to_string() }),
                args: vec![inner],
            },
        }],
    };
    let ls = compute_line_starts(&b"x".to_vec());
    let diags = lint_module(
        &vec![LintRule::NoNewSymbol(NoNewSymbol)],
        &module,
        index_with(vec![]),
        &ls,
    );
    assert_eq!(diags.len(), 1);
    assert_eq!(diags[0].span.lo, 8);
}
