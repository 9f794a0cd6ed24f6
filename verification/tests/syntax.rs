use lume::lexer::lex;
use lume::source::SourceFile;
use lume::syntax::tree::{
    CallableBody, DeferAction, DestructureKind, Expr, ImplTargetKind, Item, MatchCaseBody,
    Pattern, PatternBindingKind, Stmt, TypeKind, TypeMember, Visibility,
};
use lume::syntax::{parse_program, ParseResult};

fn parse(src: &str) -> ParseResult {
    let file = SourceFile::new("test.lum", src);
    let lexed = lex(&file);
    assert!(lexed.diagnostics.is_empty(), "lexer diagnostics: {:#?}", lexed.diagnostics);
    parse_program(&lexed.tokens)
}

fn codes(result: &ParseResult) -> Vec<String> {
    result.diagnostics.iter().map(|d| d.code.clone()).collect()
}

fn body_statements(item: &Item) -> &Vec<Stmt> {
    match item {
        Item::Function(function) => match &function.body {
            CallableBody::Block(block) => &block.statements,
            other => panic!("expected block body, got {other:#?}"),
        },
        other => panic!("expected function, got {other:#?}"),
    }
}

const SMALL_TASTE: &str = r#"
shape Point {
    x Int
    y Int
}

class User {
    name Str
    home Point
}

impl User {
    new {
        name Str
        home Point
    } {
        this.name = name
        this.home = home
    }

    new {
        label Str
    } = new(label, Point { x: 0, y: 0 })

    def moved(dx Int, dy Int) User = User {
        name: this.name
        home: Point {
            x: this.home.x + dx
            y: this.home.y + dy
        }
    }
}

def main() Unit {
    user User = User { label: "Ada" }
    moved = user.moved(3, 4)

    let { name, home } = moved
    println(name, home.x, home.y)
}
"#;

#[test]
fn parses_language_overview_example() {
    let result = parse(SMALL_TASTE);
    assert!(result.diagnostics.is_empty(), "{:#?}", result.diagnostics);
    let program = result.program.expect("program");
    assert_eq!(program.items.len(), 4);
    match &program.items[0] {
        Item::Type(decl) => {
            assert_eq!(decl.kind, TypeKind::Record);
            assert_eq!(decl.name, "Point");
            assert_eq!(decl.members.len(), 2);
        }
        other => panic!("expected shape, got {other:#?}"),
    }
    match &program.items[1] {
        Item::Type(decl) => {
            assert_eq!(decl.kind, TypeKind::Class);
            assert_eq!(decl.name, "User");
        }
        other => panic!("expected class, got {other:#?}"),
    }
    match &program.items[2] {
        Item::Impl(block) => {
            assert_eq!(block.target_kind, ImplTargetKind::Instance);
            let names: Vec<&str> = block.methods.iter().map(|m| m.name.as_str()).collect();
            assert_eq!(names, vec!["new", "new", "moved"]);
            assert_eq!(block.methods[0].params.len(), 2);
            assert!(matches!(block.methods[1].body, Some(CallableBody::Expr(Expr::Call { .. }))));
        }
        other => panic!("expected impl, got {other:#?}"),
    }
    let statements = body_statements(&program.items[3]);
    assert_eq!(statements.len(), 4);
    match &statements[2] {
        Stmt::Binding(binding) => {
            assert_eq!(binding.destructure, Some(DestructureKind::Record));
            let names: Vec<&str> = binding.bindings.iter().map(|b| b.name.as_str()).collect();
            assert_eq!(names, vec!["name", "home"]);
        }
        other => panic!("expected destructuring binding, got {other:#?}"),
    }
    assert!(matches!(&statements[3], Stmt::Expr(_)));
}

#[test]
fn parses_lifted_access_and_extract_or() {
    let result = parse(
        r#"
def city(user Option[User]) Str = user.->home.->city ?? "unknown"
"#,
    );
    assert!(result.diagnostics.is_empty(), "{:#?}", result.diagnostics);
    let program = result.program.expect("program");
    match &program.items[0] {
        Item::Function(function) => match &function.body {
            CallableBody::Expr(Expr::ExtractOr { value, fallback, .. }) => {
                match value.as_ref() {
                    Expr::LiftedChain { base, segments, .. } => {
                        assert!(matches!(base.as_ref(), Expr::Identifier { name, .. } if name == "user"));
                        assert_eq!(segments.len(), 2);
                        assert_eq!(segments[0].param, "__lume_chain0");
                        assert_eq!(segments[1].param, "__lume_chain1");
                    }
                    other => panic!("expected lifted chain, got {other:#?}"),
                }
                assert!(matches!(fallback.as_ref(), Expr::String { raw, .. } if raw == "\"unknown\""));
            }
            other => panic!("expected extract-or body, got {other:#?}"),
        },
        other => panic!("expected function, got {other:#?}"),
    }
}

#[test]
fn parses_shape_update_and_keyed_braces() {
    let result = parse(
        r#"
def main() {
    moved = point :< { x: 1 }
    table = Map { "a": 1, "b": 2 }
}
"#,
    );
    assert!(result.diagnostics.is_empty(), "{:#?}", result.diagnostics);
    let program = result.program.expect("program");
    let statements = body_statements(&program.items[0]);
    match &statements[0] {
        Stmt::Binding(binding) => {
            assert!(matches!(&binding.values[0], Expr::RecordUpdate { .. }));
        }
        other => panic!("expected binding, got {other:#?}"),
    }
    match &statements[1] {
        Stmt::Binding(binding) => match &binding.values[0] {
            Expr::Call { callee, args, uses_brace_syntax, .. } => {
                assert!(!uses_brace_syntax);
                assert!(matches!(callee.as_ref(), Expr::Member { name, .. } if name == "keyed"));
                match &args[0].value {
                    Expr::ListLiteral { items, .. } => {
                        assert_eq!(items.len(), 2);
                        assert!(matches!(&items[0], Expr::TupleLiteral { items, .. } if items.len() == 2));
                    }
                    other => panic!("expected list of pairs, got {other:#?}"),
                }
            }
            other => panic!("expected keyed call, got {other:#?}"),
        },
        other => panic!("expected binding, got {other:#?}"),
    }
}

#[test]
fn parses_refutable_bindings_defer_and_expect() {
    let result = parse(
        r#"
def main() {
    defer close(handle)
    let Some(value) = lookup(key) else { return }
    let Ok(n) <- parse(text)
    expect count > 0
    expect Some(first) = items.first()
    continue
}
"#,
    );
    assert!(result.diagnostics.is_empty(), "{:#?}", result.diagnostics);
    let program = result.program.expect("program");
    let statements = body_statements(&program.items[0]);
    assert_eq!(statements.len(), 6);
    match &statements[0] {
        Stmt::Defer(defer) => assert!(matches!(defer.action, DeferAction::Call(Expr::Call { .. }))),
        other => panic!("expected defer, got {other:#?}"),
    }
    match &statements[1] {
        Stmt::LetElse(let_else) => {
            assert!(matches!(&let_else.pattern, Pattern::Constructor { path, .. } if path[0] == "Some"));
        }
        other => panic!("expected let-else, got {other:#?}"),
    }
    match &statements[2] {
        Stmt::PatternBinding(binding) => {
            assert_eq!(binding.kind, PatternBindingKind::Let);
            assert!(matches!(&binding.pattern, Pattern::Extract { .. }));
        }
        other => panic!("expected extracting let, got {other:#?}"),
    }
    assert!(matches!(&statements[3], Stmt::ExpectCondition(_)));
    match &statements[4] {
        Stmt::PatternBinding(binding) => assert_eq!(binding.kind, PatternBindingKind::Expect),
        other => panic!("expected expect pattern, got {other:#?}"),
    }
    assert!(matches!(&statements[5], Stmt::Continue(_)));
}

#[test]
fn parses_if_let_clauses_joined_with_conditions() {
    let result = parse(
        r#"
def main() {
    if let Some(x) = maybe && x > 1 && let Ok(y) <- check(x) {
        println(y)
    } else {
        println(0)
    }
}
"#,
    );
    assert!(result.diagnostics.is_empty(), "{:#?}", result.diagnostics);
    let program = result.program.expect("program");
    let statements = body_statements(&program.items[0]);
    match &statements[0] {
        Stmt::If(if_stmt) => {
            assert!(if_stmt.condition.is_none());
            assert_eq!(if_stmt.condition_clauses.len(), 3);
            assert!(if_stmt.else_branch.is_some());
        }
        other => panic!("expected if, got {other:#?}"),
    }
}

#[test]
fn parses_partial_match_and_for_yield() {
    let result = parse(
        r#"
def main() {
    kind = partial match value {
        case 1 => "one"
        case _ => "many"
    }
    doubled = for x <- xs yield x * 2
}
"#,
    );
    assert!(result.diagnostics.is_empty(), "{:#?}", result.diagnostics);
    let program = result.program.expect("program");
    let statements = body_statements(&program.items[0]);
    match &statements[0] {
        Stmt::Binding(binding) => match &binding.values[0] {
            Expr::Match { partial, cases, .. } => {
                assert!(*partial);
                assert_eq!(cases.len(), 2);
                assert!(matches!(cases[0].body, MatchCaseBody::Expr(Expr::String { .. })));
            }
            other => panic!("expected partial match, got {other:#?}"),
        },
        other => panic!("expected binding, got {other:#?}"),
    }
    match &statements[1] {
        Stmt::Binding(binding) => match &binding.values[0] {
            Expr::ForYield { bindings, .. } => assert_eq!(bindings.len(), 1),
            other => panic!("expected for-yield, got {other:#?}"),
        },
        other => panic!("expected binding, got {other:#?}"),
    }
}

#[test]
fn keeps_raw_string_and_splits_dollar_name_interpolation() {
    let result = parse(
        r#"
def main() {
    path = raw"C:\dir\$name"
    greeting = "hi $name!"
}
"#,
    );
    assert!(result.diagnostics.is_empty(), "{:#?}", result.diagnostics);
    let program = result.program.expect("program");
    let statements = body_statements(&program.items[0]);
    match &statements[0] {
        Stmt::Binding(binding) => {
            assert!(matches!(&binding.values[0], Expr::String { raw, .. } if raw == "raw\"C:\\dir\\$name\""));
        }
        other => panic!("expected binding, got {other:#?}"),
    }
    match &statements[1] {
        Stmt::Binding(binding) => match &binding.values[0] {
            Expr::Binary { left, right, .. } => {
                assert!(matches!(right.as_ref(), Expr::String { raw, .. } if raw == "\"!\""));
                match left.as_ref() {
                    Expr::Binary { left, right, .. } => {
                        assert!(matches!(left.as_ref(), Expr::String { raw, .. } if raw == "\"hi \""));
                        assert!(matches!(right.as_ref(), Expr::Identifier { name, .. } if name == "name"));
                    }
                    other => panic!("expected nested concat, got {other:#?}"),
                }
            }
            other => panic!("expected concatenation, got {other:#?}"),
        },
        other => panic!("expected binding, got {other:#?}"),
    }
}

#[test]
fn parses_enum_cases_single_and_annotations() {
    let result = parse(
        r#"
@deprecated("old")
enum Shape {
    case Circle { radius Int }
    case Square { side Int }
    def area() Int = 0
}

single Registry {
    count Int = 0
}

impl single Registry {
    def bump() Int = this.count + 1
}
"#,
    );
    assert!(result.diagnostics.is_empty(), "{:#?}", result.diagnostics);
    let program = result.program.expect("program");
    assert_eq!(program.items.len(), 3);
    match &program.items[0] {
        Item::Type(decl) => {
            assert_eq!(decl.kind, TypeKind::Enum);
            assert_eq!(decl.annotations.len(), 1);
            assert_eq!(decl.members.len(), 3);
            assert!(matches!(&decl.members[0], TypeMember::Case(case) if case.name == "Circle" && case.fields.len() == 1));
            assert!(matches!(&decl.members[2], TypeMember::Method(method) if method.name == "area"));
        }
        other => panic!("expected enum, got {other:#?}"),
    }
    assert!(matches!(&program.items[1], Item::Type(decl) if decl.kind == TypeKind::Single));
    assert!(matches!(&program.items[2], Item::Impl(block) if block.target_kind == ImplTargetKind::Single));
}

#[test]
fn reports_member_order_and_constructors_in_type_bodies() {
    let result = parse(
        r#"
class Counter {
    def bump() Int = 1
    count Int
}
"#,
    );
    assert_eq!(codes(&result), vec!["invalid_member_order"]);
    let result = parse(
        r#"
class Counter {
    count Int
    new { count Int } { this.count = count }
}
"#,
    );
    assert_eq!(codes(&result), vec!["unexpected_constructor_decl"]);
    assert_eq!(
        result.diagnostics[0].message,
        "class 'Counter' constructors are declared in impl blocks; move 'new' into impl Counter"
    );
}

#[test]
fn reports_top_level_statements_and_old_constructor_syntax() {
    let result = parse("println(1)\n");
    assert_eq!(codes(&result), vec!["unexpected_top_level_statement"]);
    assert!(result.program.is_some());

    let result = parse(
        r#"
impl Counter {
    def new(count Int) { this.count = count }
}
"#,
    );
    assert_eq!(codes(&result), vec!["old_constructor_syntax"]);
}

#[test]
fn reports_if_expression_without_else_and_lift_operator() {
    let result = parse("def f() Int = if ready { 1 }\n");
    assert!(codes(&result).contains(&"if_expression_requires_else".to_string()), "{:#?}", result.diagnostics);

    let result = parse("def f() = lift { x }\n");
    assert!(codes(&result).contains(&"lift_removed".to_string()), "{:#?}", result.diagnostics);
}

#[test]
fn reports_mixed_brace_entries() {
    let result = parse(
        r#"
def main() {
    value = Thing { name: "a", "key": 1 }
}
"#,
    );
    assert!(codes(&result).contains(&"mixed_brace_entries".to_string()), "{:#?}", result.diagnostics);
}

#[test]
fn parses_use_declarations() {
    let result = parse(
        r#"
module app/main
use std/collections/{List, Map as Dict}
use std/io/*
use std/text/Format
def main() {}
"#,
    );
    assert!(result.diagnostics.is_empty(), "{:#?}", result.diagnostics);
    let program = result.program.expect("program");
    assert_eq!(program.module.as_ref().map(|m| m.name.as_str()), Some("app/main"));
    assert_eq!(program.imports.len(), 3);
    assert_eq!(program.imports[0].path, "std/collections");
    assert_eq!(program.imports[0].symbols.len(), 2);
    assert_eq!(program.imports[0].symbols[1].alias.as_deref(), Some("Dict"));
    assert!(program.imports[1].wildcard);
    assert_eq!(program.imports[2].symbols[0].name, "Format");
}

#[test]
fn empty_source_gives_an_empty_program() {
    let result = parse("\n\n\n");
    assert!(result.diagnostics.is_empty());
    let program = result.program.expect("program");
    assert!(program.module.is_none());
    assert!(program.imports.is_empty());
    assert!(program.items.is_empty());
}

#[test]
fn program_span_runs_from_first_token_to_last() {
    let result = parse("\ndef f() = 1\n");
    let program = result.program.expect("program");
    let span = program.span.expect("span");
    assert_eq!((span.start, span.end), (1, 13));
    assert_eq!(span.start_pos.line, 2);
}

#[test]
fn public_reaches_only_functions_and_immutable_named_bindings() {
    let result = parse("public answer = 42\npublic _ = 1\npublic class Hidden {\n}\n");
    assert_eq!(codes(&result), vec!["unexpected_visibility", "unexpected_visibility"]);
    let program = result.program.expect("program");
    // After the refused `public`, parsing resumes at the declaration keyword.
    assert_eq!(program.items.len(), 2);
    match &program.items[0] {
        Item::Statement(Stmt::Binding(binding)) => {
            assert_eq!(binding.visibility, Visibility::Public);
            assert_eq!(binding.bindings[0].name, "answer");
        }
        other => panic!("expected a binding, got {other:#?}"),
    }
    match &program.items[1] {
        Item::Type(decl) => {
            assert_eq!(decl.visibility, Visibility::Default);
            assert_eq!(decl.name, "Hidden");
        }
        other => panic!("expected a type declaration, got {other:#?}"),
    }
}

#[test]
fn accepted_type_bodies_keep_cases_and_fields_before_methods() {
    let result = parse("enum Color {\n    case Red\n    case Green\n    def label() Str = \"c\"\n}\n");
    assert!(result.diagnostics.is_empty(), "{:#?}", result.diagnostics);
    let program = result.program.expect("program");
    match &program.items[0] {
        Item::Type(decl) => {
            assert_eq!(decl.kind, TypeKind::Enum);
            assert!(matches!(decl.members[0], TypeMember::Case(_)));
            assert!(matches!(decl.members[1], TypeMember::Case(_)));
            assert!(matches!(decl.members[2], TypeMember::Method(_)));
        }
        other => panic!("expected a type declaration, got {other:#?}"),
    }
    let result = parse("enum Color {\n    def label() Str = \"c\"\n    case Red\n}\n");
    assert_eq!(codes(&result), vec!["invalid_member_order"]);
}
