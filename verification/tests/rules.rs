use deno_lint::ast::{BlockStmt, Expr, Module, Stmt, SwitchCase, TryStmt};
use deno_lint::comments::{Comment, CommentGroup, CommentKind, SourceIndex};
use deno_lint::diagnostics::Diagnostic;
use deno_lint::runner::{lint_module, LintRule};
use deno_lint::ban_ts_comment::BanTsComment;
use deno_lint::ban_untagged_ignore::BanUntaggedIgnore;
use deno_lint::no_new_symbol::NoNewSymbol;
use deno_lint::no_unsafe_finally::NoUnsafeFinally;
use deno_lint::span::{compute_line_starts, line_col, Span};

fn line_comment(src: &str, marker: &str) -> Comment {
    // The comment starts at the marker and runs to the end of its line;
    // its text is everything after the `//`.
    let lo = src.find(marker).expect("marker not in source");
    let rest = &src[lo..];
    let end = rest.find('\n').map(|e| lo + e).unwrap_or(src.len());
    Comment::new(Span::new(lo, end), CommentKind::Line, src[lo + 2..end].to_string())
}

fn block_comment(src: &str) -> Comment {
    let lo = src.find("/*").expect("no block comment in source");
    let end = src.find("*/").expect("unterminated block comment") + 2;
    Comment::new(Span::new(lo, end), CommentKind::Block, src[lo + 2..end - 2].to_string())
}

fn empty_module(src: &str) -> Module {
    Module { span: Span { lo: 0, hi: src.len() }, body: vec![] }
}

fn index_of(leading: Vec<Comment>) -> SourceIndex {
    SourceIndex::new(vec![CommentGroup::new(0, leading)], vec![])
}

fn run(rule: LintRule, src: &str, leading: Vec<Comment>, module: Module) -> Vec<Diagnostic> {
    let ls = compute_line_starts(&src.as_bytes().to_vec());
    lint_module(&vec![rule], &module, index_of(leading), &ls)
}

fn assert_lint_ok(rule: LintRule, src: &str, leading: Vec<Comment>, module: Module) {
    let diags = run(rule, src, leading, module);
    assert_eq!(diags.len(), 0, "expected no diagnostics for {:?}", src);
}

fn assert_lint_err_on_line(
    rule: LintRule,
    src: &str,
    leading: Vec<Comment>,
    module: Module,
    code: &str,
    line: usize,
    col: usize,
) {
    let diags = run(rule, src, leading, module);
    assert_eq!(diags.len(), 1, "expected one diagnostic for {:?}", src);
    assert_eq!(diags[0].code, code);
    let ls = compute_line_starts(&src.as_bytes().to_vec());
    let (l, c) = line_col(&ls, diags[0].span.lo);
    assert_eq!((l, c), (line, col), "wrong location for {:?}", src);
}

fn ts_comment_ok_line(src: &str) {
    let c = line_comment(src, "//");
    assert_lint_ok(LintRule::BanTsComment(BanTsComment), src, vec![c], empty_module(src));
}

fn ts_comment_ok_block(src: &str) {
    let c = block_comment(src);
    assert_lint_ok(LintRule::BanTsComment(BanTsComment), src, vec![c], empty_module(src));
}

#[test]
fn ban_ts_comment_valid() {
    ts_comment_ok_line(r#"// just a comment containing @ts-expect-error somewhere"#);
    ts_comment_ok_block(r#"/* @ts-expect-error */"#);
    ts_comment_ok_block(r#"/** @ts-expect-error */"#);
    ts_comment_ok_block("/*\n// @ts-expect-error in a block\n*/\n");

    ts_comment_ok_line(r#"// just a comment containing @ts-ignore somewhere"#);
    ts_comment_ok_block(r#"/* @ts-ignore */"#);
    ts_comment_ok_block(r#"/** @ts-ignore */"#);
    ts_comment_ok_block("/*\n// @ts-ignore in a block\n*/\n");

    ts_comment_ok_line(r#"// just a comment containing @ts-nocheck somewhere"#);
    ts_comment_ok_block(r#"/* @ts-nocheck */"#);
    ts_comment_ok_block(r#"/** @ts-nocheck */"#);
    ts_comment_ok_block("/*\n// @ts-nocheck in a block\n*/\n");

    ts_comment_ok_line(r#"// just a comment containing @ts-check somewhere"#);
    ts_comment_ok_block(r#"/* @ts-check */"#);
    ts_comment_ok_block(r#"/** @ts-check */"#);
    ts_comment_ok_block("/*\n// @ts-check in a block\n*/\n");

    ts_comment_ok_line("if (false) {\n// @ts-ignore: Unreachable code error\nconsole.log('hello');\n}");
    ts_comment_ok_line("if (false) {\n// @ts-expect-error: Unreachable code error\nconsole.log('hello');\n}");
    ts_comment_ok_line("if (false) {\n// @ts-nocheck: Unreachable code error\nconsole.log('hello');\n}");

    ts_comment_ok_line(r#"// @ts-expect-error: Suppress next line"#);
    ts_comment_ok_line(r#"// @ts-ignore: Suppress next line"#);
    ts_comment_ok_line(r#"// @ts-nocheck: Suppress next line"#);
}

#[test]
fn ban_ts_comment_invalid() {
    for src in [r#"// @ts-expect-error"#, r#"// @ts-ignore"#, r#"// @ts-nocheck"#] {
        let c = line_comment(src, "//");
        assert_lint_err_on_line(
            LintRule::BanTsComment(BanTsComment),
            src,
            vec![c],
            empty_module(src),
            "ban-ts-comment",
            1,
            0,
        );
    }
}

fn named_function_module(src: &str) -> Module {
    // A function declaration whose body is empty but for its comment.
    let lo = src.find("function").unwrap_or(0);
    Module {
        span: Span { lo: 0, hi: src.len() },
        body: vec![Stmt::VarDecl {
            span: Span { lo, hi: src.len() },
            inits: vec![Expr::Func { span: Span { lo, hi: src.len() }, body: vec![] }],
        }],
    }
}

#[test]
fn ban_ts_ignore() {
    let src = "\n// deno-lint-ignore\nfunction foo() {\n  // pass\n}\n    ";
    let directive = line_comment(src, "// deno-lint-ignore");
    let pass = line_comment(src, "// pass");
    assert_lint_err_on_line(
        LintRule::BanUntaggedIgnore(BanUntaggedIgnore),
        src,
        vec![directive, pass],
        named_function_module(src),
        "ban-untagged-ignore",
        2,
        0,
    );

    let src_ok = "\n// deno-lint-ignore some-code some-code-2\nfunction bar() {\n  // pass\n}\n    ";
    let directive_ok = line_comment(src_ok, "// deno-lint-ignore");
    let pass_ok = line_comment(src_ok, "// pass");
    assert_lint_ok(
        LintRule::BanUntaggedIgnore(BanUntaggedIgnore),
        src_ok,
        vec![directive_ok, pass_ok],
        named_function_module(src_ok),
    );
}

fn new_expr_module(src: &str, callee: &str) -> Module {
    let callee_lo = src.find(callee).expect("callee not in source");
    Module {
        span: Span { lo: 0, hi: src.len() },
        body: vec![Stmt::Expr {
            span: Span { lo: 0, hi: src.len() },
            expr: Expr::New {
                span: Span { lo: 0, hi: src.len() },
                callee: Box::new(Expr::Ident {
                    span: Span { lo: callee_lo, hi: callee_lo + callee.len() },
                    name: callee.to_string(),
                }),
                args: vec![],
            },
        }],
    }
}

#[test]
fn test_new_symbol() {
    let src = "new Symbol()";
    assert_lint_err_on_line(
        LintRule::NoNewSymbol(NoNewSymbol),
        src,
        vec![],
        new_expr_module(src, "Symbol"),
        "no-new-symbol",
        1,
        0,
    );
}

#[test]
fn test_new_normal_class() {
    let src = "new Class()";
    assert_lint_ok(LintRule::NoNewSymbol(NoNewSymbol), src, vec![], new_expr_module(src, "Class"));
}

#[test]
fn test_create_symbol() {
    let src = "Symbol()";
    let module = Module {
        span: Span { lo: 0, hi: src.len() },
        body: vec![Stmt::Expr {
            span: Span { lo: 0, hi: src.len() },
            expr: Expr::Call {
                span: Span { lo: 0, hi: src.len() },
                callee: Box::new(Expr::Ident {
                    span: Span { lo: 0, hi: 6 },
                    name: "Symbol".to_string(),
                }),
                args: vec![],
            },
        }],
    };
    assert_lint_ok(LintRule::NoNewSymbol(NoNewSymbol), src, vec![], module);
}

fn console_log_stmt(span: Span) -> Stmt {
    Stmt::Expr {
        span,
        expr: Expr::Call {
            span,
            callee: Box::new(Expr::Member {
                span,
                obj: Box::new(Expr::Ident { span, name: "console".to_string() }),
                prop: "log".to_string(),
            }),
            args: vec![Expr::Lit { span }],
        },
    }
}

fn return_stmt(span: Span) -> Stmt {
    Stmt::Return { span, arg: Some(Expr::Lit { span }) }
}

/// The shared scaffolding of the finally tests: a function literal whose
/// body is one try/catch/finally, with the given statements in the
/// finally block.
fn try_finally_module(src: &str, finally_stmts: Vec<Stmt>) -> Module {
    let z = Span { lo: 0, hi: 0 };
    let fin_lo = src.rfind("finally {").expect("no finally in source") + "finally ".len();
    let fin_span = Span { lo: fin_lo, hi: src.len() };
    let try_stmt = TryStmt {
        span: z,
        block: BlockStmt { span: z, stmts: vec![return_stmt(z)] },
        handler: Some(BlockStmt { span: z, stmts: vec![return_stmt(z)] }),
        finalizer: Some(BlockStmt { span: fin_span, stmts: finally_stmts }),
    };
    Module {
        span: Span { lo: 0, hi: src.len() },
        body: vec![Stmt::VarDecl {
            span: Span { lo: 0, hi: src.len() },
            inits: vec![Expr::Func {
                span: Span { lo: 0, hi: src.len() },
                body: vec![Stmt::Try { stmt: Box::new(try_stmt) }],
            }],
        }],
    }
}

#[test]
fn it_passes_when_there_are_no_disallowed_keywords_in_the_finally_block() {
    let src = "\nlet foo = function() {\n  try {\n    return 1;\n  } catch(err) {\n    return 2;\n  } finally {\n    console.log(\"hola!\");\n  }\n};\n     ";
    let z = Span { lo: 0, hi: 0 };
    let module = try_finally_module(src, vec![console_log_stmt(z)]);
    assert_lint_ok(LintRule::NoUnsafeFinally(NoUnsafeFinally), src, vec![], module);
}

#[test]
fn it_passes_for_a_return_within_a_function_in_a_finally_block() {
    let src = "\nlet foo = function() {\n  try {\n    return 1;\n  } catch(err) {\n    return 2;\n  } finally {\n    let a = function() {\n      return \"hola!\";\n    }\n  }\n};\n     ";
    let z = Span { lo: 0, hi: 0 };
    let inner_fn = Stmt::VarDecl {
        span: z,
        inits: vec![Expr::Func { span: z, body: vec![return_stmt(z)] }],
    };
    let module = try_finally_module(src, vec![inner_fn]);
    assert_lint_ok(LintRule::NoUnsafeFinally(NoUnsafeFinally), src, vec![], module);
}

#[test]
fn it_passes_for_a_break_within_a_switch_in_a_finally_block() {
    let src = "\nlet foo = function(a) {\n  try {\n    return 1;\n  } catch(err) {\n    return 2;\n  } finally {\n    switch(a) {\n      case 1: {\n        console.log(\"hola!\")\n        break;\n      }\n    }\n  }\n};\n      ";
    let z = Span { lo: 0, hi: 0 };
    let switch_stmt = Stmt::Switch {
        span: z,
        disc: Expr::Ident { span: z, name: "a".to_string() },
        cases: vec![SwitchCase {
            span: z,
            test: Some(Expr::Lit { span: z }),
            body: vec![Stmt::Block {
                block: BlockStmt {
                    span: z,
                    stmts: vec![console_log_stmt(z), Stmt::Break { span: z }],
                },
            }],
        }],
    };
    let module = try_finally_module(src, vec![switch_stmt]);
    assert_lint_ok(LintRule::NoUnsafeFinally(NoUnsafeFinally), src, vec![], module);
}

#[test]
fn it_fails_for_a_break_in_a_finally_block() {
    let src = "\nlet foo = function() {\n  try {\n    return 1;\n  } catch(err) {\n    return 2;\n  } finally {\n    break;\n  }\n};\n     ";
    let z = Span { lo: 0, hi: 0 };
    let module = try_finally_module(src, vec![Stmt::Break { span: z }]);
    assert_lint_err_on_line(
        LintRule::NoUnsafeFinally(NoUnsafeFinally), src, vec![], module,
        "no-unsafe-finally", 7, 12,
    );
}

#[test]
fn it_fails_for_a_continue_in_a_finally_block() {
    let src = "\nlet foo = function() {\n  try {\n    return 1;\n  } catch(err) {\n    return 2;\n  } finally {\n    continue;\n  }\n};\n     ";
    let z = Span { lo: 0, hi: 0 };
    let module = try_finally_module(src, vec![Stmt::Continue { span: z }]);
    assert_lint_err_on_line(
        LintRule::NoUnsafeFinally(NoUnsafeFinally), src, vec![], module,
        "no-unsafe-finally", 7, 12,
    );
}

#[test]
fn it_fails_for_a_return_in_a_finally_block() {
    let src = "\nlet foo = function() {\n  try {\n    return 1;\n  } catch(err) {\n    return 2;\n  } finally {\n    return 3;\n  }\n};\n          ";
    let z = Span { lo: 0, hi: 0 };
    let module = try_finally_module(src, vec![return_stmt(z)]);
    assert_lint_err_on_line(
        LintRule::NoUnsafeFinally(NoUnsafeFinally), src, vec![], module,
        "no-unsafe-finally", 7, 12,
    );
}

#[test]
fn it_fails_for_a_throw_in_a_finally_block() {
    let src = "\nlet foo = function() {\n  try {\n    return 1;\n  } catch(err) {\n    return 2;\n  } finally {\n    throw new Error;\n  }\n};\n     ";
    let z = Span { lo: 0, hi: 0 };
    let throw_stmt = Stmt::Throw {
        span: z,
        value: Expr::New {
            span: z,
            callee: Box::new(Expr::Ident { span: z, name: "Error".to_string() }),
            args: vec![],
        },
    };
    let module = try_finally_module(src, vec![throw_stmt]);
    assert_lint_err_on_line(
        LintRule::NoUnsafeFinally(NoUnsafeFinally), src, vec![], module,
        "no-unsafe-finally", 7, 12,
    );
}

#[test]
fn it_fails_for_a_throw_in_a_nested_finally_block() {
    let src = "\ntry {}\nfinally {\n  try {}\n  finally {\n    throw new Error;\n  }\n}\n     ";
    let z = Span { lo: 0, hi: 0 };
    let inner_fin_lo = src
        .match_indices("finally {")
        .nth(1)
        .expect("no nested finally")
        .0 + "finally ".len();
    let inner_try = TryStmt {
        span: z,
        block: BlockStmt { span: z, stmts: vec![] },
        handler: None,
        finalizer: Some(BlockStmt {
            span: Span { lo: inner_fin_lo, hi: src.len() },
            stmts: vec![Stmt::Throw {
                span: z,
                value: Expr::New {
                    span: z,
                    callee: Box::new(Expr::Ident { span: z, name: "Error".to_string() }),
                    args: vec![],
                },
            }],
        }),
    };
    let outer_fin_lo = src.find("finally {").unwrap() + "finally ".len();
    let outer_try = TryStmt {
        span: z,
        block: BlockStmt { span: z, stmts: vec![] },
        handler: None,
        finalizer: Some(BlockStmt {
            span: Span { lo: outer_fin_lo, hi: src.len() },
            stmts: vec![Stmt::Try { stmt: Box::new(inner_try) }],
        }),
    };
    let module = Module {
        span: Span { lo: 0, hi: src.len() },
        body: vec![Stmt::Try { stmt: Box::new(outer_try) }],
    };
    assert_lint_err_on_line(
        LintRule::NoUnsafeFinally(NoUnsafeFinally), src, vec![], module,
        "no-unsafe-finally", 5, 10,
    );
}
