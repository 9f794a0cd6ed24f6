use lume::lexer::lex;
use lume::source::SourceFile;
use lume::syntax::tree::{CallableBody, Expr, Item, Pattern, PatternBindingKind, Stmt, TypeKind, TypeMember};
use lume::syntax::{parse_program, ParseResult};

fn parse(src: &str) -> ParseResult {
    let file = SourceFile::new("shapes.lum", src);
    let lexed = lex(&file);
    assert!(lexed.diagnostics.is_empty(), "lexer diagnostics: {:#?}", lexed.diagnostics);
    parse_program(&lexed.tokens)
}

fn codes(result: &ParseResult) -> Vec<String> {
    result.diagnostics.iter().map(|d| d.code.clone()).collect()
}

fn first_statement(result: &ParseResult) -> &Stmt {
    let program = result.program.as_ref().expect("program");
    match &program.items[0] {
        Item::Function(function) => match &function.body {
            CallableBody::Block(block) => &block.statements[0],
            other => panic!("expected a block body, got {other:#?}"),
        },
        other => panic!("expected a function, got {other:#?}"),
    }
}

#[test]
fn an_empty_class_body_is_a_type_with_no_members() {
    let result = parse("class Empty {\n}\n");
    assert!(result.diagnostics.is_empty(), "{:#?}", result.diagnostics);
    let program = result.program.expect("program");
    assert_eq!(program.items.len(), 1);
    match &program.items[0] {
        Item::Type(decl) => {
            assert_eq!(decl.kind, TypeKind::Class);
            assert_eq!(decl.name, "Empty");
            assert!(decl.members.is_empty());
        },
        other => panic!("expected a type, got {other:#?}"),
    }
}

#[test]
fn a_late_field_is_kept_and_reported() {
    let result = parse("class Late {\n  def get() Int = 1\n  count Int\n}\n");
    assert_eq!(codes(&result), vec!["invalid_member_order"]);
    let program = result.program.expect("program");
    match &program.items[0] {
        Item::Type(decl) => assert_eq!(decl.members.len(), 2),
        other => panic!("expected a type, got {other:#?}"),
    }
}

#[test]
fn postfix_steps_nest_from_left_to_right() {
    let result = parse("def main() Unit {\n  a.b(1)[2]\n}\n");
    assert!(result.diagnostics.is_empty(), "{:#?}", result.diagnostics);
    match first_statement(&result) {
        Stmt::Expr(stmt) => match &stmt.expr {
            Expr::Index { receiver, index, .. } => {
                assert!(matches!(&**index, Expr::Integer { raw, .. } if raw == "2"));
                match &**receiver {
                    Expr::Call { callee, args, .. } => {
                        assert_eq!(args.len(), 1);
                        assert!(matches!(&args[0].value, Expr::Integer { raw, .. } if raw == "1"));
                        match &**callee {
                            Expr::Member { receiver, name, .. } => {
                                assert_eq!(name, "b");
                                assert!(matches!(&**receiver, Expr::Identifier { name, .. } if name == "a"));
                            },
                            other => panic!("expected a member, got {other:#?}"),
                        }
                    },
                    other => panic!("expected a call, got {other:#?}"),
                }
            },
            other => panic!("expected an index, got {other:#?}"),
        },
        other => panic!("expected an expression statement, got {other:#?}"),
    }
}

#[test]
fn let_with_a_constructor_pattern_binds_its_argument() {
    let result = parse("def main() Unit {\n  let Some(x) = 5\n}\n");
    assert!(result.diagnostics.is_empty(), "{:#?}", result.diagnostics);
    match first_statement(&result) {
        Stmt::PatternBinding(binding) => {
            assert!(matches!(binding.kind, PatternBindingKind::Let));
            match &binding.pattern {
                Pattern::Constructor { path, args, .. } => {
                    assert_eq!(path, &vec!["Some".to_string()]);
                    assert_eq!(args.len(), 1);
                    assert!(matches!(&args[0], Pattern::Binding { name, .. } if name == "x"));
                },
                other => panic!("expected a constructor pattern, got {other:#?}"),
            }
        },
        other => panic!("expected a pattern binding, got {other:#?}"),
    }
}

#[test]
fn positional_brace_entries_are_refused() {
    let result = parse("def main() Unit {\n  p = Point { 1, 2 }\n}\n");
    assert!(codes(&result).contains(&"positional_brace_construction".to_string()), "{:#?}", result.diagnostics);
}

#[test]
fn a_run_of_empty_declarations_parses_cleanly_in_order() {
    let result = parse("\ndef first() Unit {\n}\n\nclass Second {\n\n}\ndef third() Int {}\n");
    assert!(result.diagnostics.is_empty(), "{:#?}", result.diagnostics);
    let program = result.program.expect("program");
    assert!(program.module.is_none());
    assert!(program.imports.is_empty());
    assert_eq!(program.items.len(), 3);
    assert!(matches!(&program.items[0], Item::Function(f) if f.name == "first"));
    assert!(matches!(&program.items[1], Item::Type(t) if t.name == "Second" && t.members.is_empty()));
    assert!(matches!(&program.items[2], Item::Function(f) if f.name == "third"));
}

#[test]
fn simple_members_come_back_in_order_with_one_report_per_late_field() {
    let result = parse("class A {\n  def m() Int {}\n  x Int\n  y Str\n}\n");
    assert_eq!(codes(&result), vec!["invalid_member_order", "invalid_member_order"]);
    let program = result.program.expect("program");
    match &program.items[0] {
        Item::Type(decl) => {
            assert_eq!(decl.members.len(), 3);
            assert!(matches!(&decl.members[0], TypeMember::Method(m) if m.name == "m"));
            assert!(matches!(&decl.members[1], TypeMember::Field(f) if f.name == "x"));
            assert!(matches!(&decl.members[2], TypeMember::Field(f) if f.name == "y"));
        },
        other => panic!("expected a type, got {other:#?}"),
    }
}

#[test]
fn a_program_of_simple_declarations_parses_cleanly() {
    let result = parse("class Point {\n  x Int\n  y Int\n  def norm() Int {}\n}\n\ndef main() Unit {\n}\n");
    assert!(result.diagnostics.is_empty(), "{:#?}", result.diagnostics);
    let program = result.program.expect("program");
    assert_eq!(program.items.len(), 2);
    match &program.items[0] {
        Item::Type(decl) => {
            assert_eq!(decl.name, "Point");
            assert_eq!(decl.members.len(), 3);
        },
        other => panic!("expected a type, got {other:#?}"),
    }
    assert!(matches!(&program.items[1], Item::Function(f) if f.name == "main"));
}

#[test]
fn simple_parameters_are_kept_in_order_in_functions_and_methods() {
    let result = parse("def run(limit Int, step Int) Int {}\nclass Counter {\n  def bump(delta Int) Int {}\n}\n");
    assert!(result.diagnostics.is_empty(), "{:#?}", result.diagnostics);
    let program = result.program.as_ref().expect("program");
    assert_eq!(program.items.len(), 2);
    match &program.items[0] {
        Item::Function(f) => {
            assert_eq!(f.name, "run");
            let names: Vec<&str> = f.params.iter().map(|p| p.name.as_str()).collect();
            assert_eq!(names, vec!["limit", "step"]);
            assert!(f.params.iter().all(|p| !p.variadic && p.initializer.is_none() && p.ty.is_some()));
        },
        other => panic!("expected a function, got {other:#?}"),
    }
    match &program.items[1] {
        Item::Type(decl) => {
            assert_eq!(decl.kind, TypeKind::Class);
            assert_eq!(decl.members.len(), 1);
            match &decl.members[0] {
                TypeMember::Method(m) => {
                    assert_eq!(m.name, "bump");
                    assert_eq!(m.params.len(), 1);
                    assert_eq!(m.params[0].name, "delta");
                },
                other => panic!("expected a method, got {other:#?}"),
            }
        },
        other => panic!("expected a type, got {other:#?}"),
    }
}
