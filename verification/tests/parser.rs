use lume::ast::{CallableBody, Expr, Item, Stmt, Visibility};
use lume::lexer::lex;
use lume::parser::{parse_program, ParseResult};
use lume::source::SourceFile;

fn parse(src: &str) -> ParseResult {
    let file = SourceFile::new("test.lum", src);
    let lexed = lex(&file);
    assert!(lexed.diagnostics.is_empty(), "lexer diagnostics: {:#?}", lexed.diagnostics);
    parse_program(&lexed.tokens)
}

#[test]
fn parses_function_with_range_loop() {
    let result = parse(
        r#"
def run(limit Int) Int {
    var total Int = 0
    for i <- Range(0, limit) {
        total += i
    }
    return total
}
"#,
    );
    assert!(result.diagnostics.is_empty(), "{:#?}", result.diagnostics);
    let program = result.program.expect("program");
    assert_eq!(program.items.len(), 1);
    match &program.items[0] {
        Item::Function(function) => {
            assert_eq!(function.name, "run");
            match &function.body {
                CallableBody::Block(block) => {
                    assert_eq!(block.statements.len(), 3);
                }
                other => panic!("expected block body, got {other:#?}"),
            }
        }
        other => panic!("expected function, got {other:#?}"),
    }
}

#[test]
fn parses_class_and_impl() {
    let result = parse(
        r#"
class Counter {
    hidden var count Int
}

impl Counter {
    def init(count Int) {
        this.count = count
    }

    def bump(delta Int) Int = this.count + delta
}
"#,
    );
    assert!(result.diagnostics.is_empty(), "{:#?}", result.diagnostics);
    let program = result.program.expect("program");
    assert_eq!(program.items.len(), 2);
    assert!(matches!(program.items[0], Item::Type(_)));
    assert!(matches!(program.items[1], Item::Impl(_)));
}

#[test]
fn parses_single_expression_function_body() {
    let result = parse("def zero() Int = 0\n");
    assert!(result.diagnostics.is_empty(), "{:#?}", result.diagnostics);
    let program = result.program.expect("program");
    match &program.items[0] {
        Item::Function(function) => match &function.body {
            CallableBody::Expr(Expr::Integer { raw, .. }) => assert_eq!(raw, "0"),
            other => panic!("expected integer expr body, got {other:#?}"),
        },
        other => panic!("expected function, got {other:#?}"),
    }
}

#[test]
fn parses_if_expression_and_calls() {
    let result = parse(
        r#"
def run(flag Bool) Int {
    value Int = if flag {
        foo(1)
    } else {
        bar(2)
    }
    return value
}
"#,
    );
    assert!(result.diagnostics.is_empty(), "{:#?}", result.diagnostics);
    let program = result.program.expect("program");
    match &program.items[0] {
        Item::Function(function) => match &function.body {
            CallableBody::Block(block) => match &block.statements[0] {
                Stmt::Binding(binding) => {
                    assert_eq!(binding.bindings[0].name, "value");
                }
                other => panic!("expected binding, got {other:#?}"),
            },
            other => panic!("expected block body, got {other:#?}"),
        },
        other => panic!("expected function, got {other:#?}"),
    }
}

#[test]
fn parses_lambda_expression() {
    let result = parse("def make() Unit = values.map((x, y) -> x + y)\n");
    assert!(result.diagnostics.is_empty(), "{:#?}", result.diagnostics);
}

#[test]
fn parses_single_param_typed_lambda_without_parens() {
    let result = parse(
        r#"
def main() Unit {
    value = item Int -> item + 1
}
"#,
    );
    assert!(result.diagnostics.is_empty(), "{:#?}", result.diagnostics);
}

#[test]
fn parses_string_interpolation_as_binary_concat() {
    let result = parse(
        r#"
def run(name Str, count Int) Str {
    return "hello $name ${count + 1} \$done"
}
"#,
    );
    assert!(result.diagnostics.is_empty(), "{:#?}", result.diagnostics);
    let program = result.program.expect("program");
    match &program.items[0] {
        Item::Function(function) => match &function.body {
            CallableBody::Block(block) => match &block.statements[0] {
                Stmt::Return(ret) => {
                    assert!(matches!(ret.value, Some(Expr::Binary { .. })));
                }
                other => panic!("expected return statement, got {other:#?}"),
            },
            other => panic!("expected block body, got {other:#?}"),
        },
        other => panic!("expected function, got {other:#?}"),
    }
}

#[test]
fn keeps_multiline_string_as_literal() {
    let result = parse(
        r#"
def run() Str {
    return """
hello
$name
\n
"""
}
"#,
    );
    assert!(result.diagnostics.is_empty(), "{:#?}", result.diagnostics);
    let program = result.program.expect("program");
    match &program.items[0] {
        Item::Function(function) => match &function.body {
            CallableBody::Block(block) => match &block.statements[0] {
                Stmt::Return(ret) => {
                    assert!(matches!(ret.value, Some(Expr::String { .. })));
                }
                other => panic!("expected return statement, got {other:#?}"),
            },
            other => panic!("expected block body, got {other:#?}"),
        },
        other => panic!("expected function, got {other:#?}"),
    }
}

#[test]
fn empty_source_parses_to_an_empty_program() {
    let result = parse("\n\n");
    assert!(result.diagnostics.is_empty());
    let program = result.program.expect("program");
    assert!(program.items.is_empty());
    assert!(program.imports.is_empty());
    assert!(program.module.is_none());
}

#[test]
fn program_span_covers_first_to_last_token() {
    let result = parse("def f() Int = 1\n");
    let span = result.program.expect("program").span.expect("span");
    assert_eq!((span.start, span.end), (0, 16));
}

#[test]
fn keeps_top_level_statements_in_the_first_grammar() {
    let result = parse("if ready {\n    go()\n}\n");
    assert!(result.diagnostics.is_empty(), "{:#?}", result.diagnostics);
    let program = result.program.expect("program");
    assert_eq!(program.items.len(), 1);
    assert!(matches!(&program.items[0], Item::Statement(Stmt::If(_))));
    // A statement that starts like a binding but is none is skipped.
    let result = parse("println(1)\n");
    assert!(result.diagnostics.is_empty());
    assert!(result.program.expect("program").items.is_empty());
}

#[test]
fn public_is_refused_on_type_declarations_and_placeholder_bindings() {
    let result = parse("public answer = 42\npublic _ = 1\npublic record Hidden {\n}\n");
    let program = result.program.expect("program");
    // After the refused `public`, parsing resumes at the declaration keyword.
    assert_eq!(program.items.len(), 2);
    match &program.items[0] {
        Item::Statement(Stmt::Binding(binding)) => {
            assert_eq!(binding.visibility, Visibility::Public);
            assert_eq!(binding.bindings[0].name, "answer");
        }
        other => panic!("expected a binding, got {other:#?}"),
    }
    match &program.items[1] {
        Item::Type(decl) => {
            assert_eq!(decl.visibility, Visibility::Default);
            assert_eq!(decl.name, "Hidden");
        }
        other => panic!("expected a type declaration, got {other:#?}"),
    }
    // Resynchronising after the refused `_` skips ahead to the `record` keyword.
    let codes: Vec<&str> = result.diagnostics.iter().map(|d| d.code.as_str()).collect();
    assert_eq!(codes, vec!["unexpected_visibility"]);
    let result = parse("public record Hidden {\n}\n");
    let codes: Vec<&str> = result.diagnostics.iter().map(|d| d.code.as_str()).collect();
    assert_eq!(codes, vec!["unexpected_visibility"]);
}
