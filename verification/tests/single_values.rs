use lume::ast::{CallableBody, Expr, Item, Pattern, Stmt, TypeRef};
use lume::lexer::lex;
use lume::parser;
use lume::source::SourceFile;
use lume::syntax;

fn parse_flat(src: &str) -> parser::ParseResult {
    let file = SourceFile::new("single.lum", src);
    let lexed = lex(&file);
    assert!(lexed.diagnostics.is_empty(), "lexer diagnostics: {:#?}", lexed.diagnostics);
    parser::parse_program(&lexed.tokens)
}

fn parse_layered(src: &str) -> syntax::ParseResult {
    let file = SourceFile::new("single.lum", src);
    let lexed = lex(&file);
    assert!(lexed.diagnostics.is_empty(), "lexer diagnostics: {:#?}", lexed.diagnostics);
    syntax::parse_program(&lexed.tokens)
}

#[test]
fn a_lone_integer_is_an_expression_statement() {
    let result = parse_flat("\n\n7\n\n");
    assert!(result.diagnostics.is_empty(), "{:#?}", result.diagnostics);
    let program = result.program.expect("program");
    assert_eq!(program.items.len(), 1);
    match &program.items[0] {
        Item::Statement(Stmt::Expr(stmt)) => match &stmt.expr {
            Expr::Integer { raw, .. } => assert_eq!(raw, "7"),
            other => panic!("expected an integer, got {other:#?}"),
        },
        other => panic!("expected an expression statement, got {other:#?}"),
    }
}

#[test]
fn a_lone_integer_closed_by_a_brace_is_the_block_statement() {
    let result = parse_flat("def seven() Int {\n  7\n}\n");
    assert!(result.diagnostics.is_empty(), "{:#?}", result.diagnostics);
    let program = result.program.expect("program");
    match &program.items[0] {
        Item::Function(function) => match &function.body {
            CallableBody::Block(block) => {
                assert_eq!(block.statements.len(), 1);
                match &block.statements[0] {
                    Stmt::Expr(stmt) => assert!(matches!(&stmt.expr, Expr::Integer { raw, .. } if raw == "7")),
                    other => panic!("expected an expression statement, got {other:#?}"),
                }
            },
            other => panic!("expected a block body, got {other:#?}"),
        },
        other => panic!("expected a function, got {other:#?}"),
    }
}

#[test]
fn an_empty_block_has_no_statements() {
    let result = parse_flat("def nothing() Unit {\n}\n");
    assert!(result.diagnostics.is_empty(), "{:#?}", result.diagnostics);
    let program = result.program.expect("program");
    match &program.items[0] {
        Item::Function(function) => match &function.body {
            CallableBody::Block(block) => assert!(block.statements.is_empty()),
            other => panic!("expected a block body, got {other:#?}"),
        },
        other => panic!("expected a function, got {other:#?}"),
    }
}

#[test]
fn the_layered_grammar_refuses_a_top_level_integer_with_a_diagnostic() {
    let result = parse_layered("42\n");
    let codes: Vec<String> = result.diagnostics.iter().map(|d| d.code.clone()).collect();
    assert!(codes.contains(&"unexpected_top_level_statement".to_string()), "{codes:#?}");
}

#[test]
fn a_name_bound_to_an_integer_is_one_binding_with_one_value() {
    let result = parse_flat("def one() Int {\n  x = 1\n  x\n}\n");
    assert!(result.diagnostics.is_empty(), "{:#?}", result.diagnostics);
    let program = result.program.expect("program");
    match &program.items[0] {
        Item::Function(function) => match &function.body {
            CallableBody::Block(block) => {
                assert_eq!(block.statements.len(), 2);
                match &block.statements[0] {
                    Stmt::Binding(binding) => {
                        assert_eq!(binding.bindings.len(), 1);
                        assert_eq!(binding.bindings[0].name, "x");
                        assert_eq!(binding.values.len(), 1);
                        assert!(matches!(&binding.values[0], Expr::Integer { raw, .. } if raw == "1"));
                    },
                    other => panic!("expected a binding, got {other:#?}"),
                }
            },
            other => panic!("expected a block body, got {other:#?}"),
        },
        other => panic!("expected a function, got {other:#?}"),
    }
}

#[test]
fn a_run_of_empty_declarations_is_read_without_diagnostics() {
    let result = parse_flat("def first() Unit {\n}\n\nrecord Second {\n}\ndef third() Int {}\ndef fourth() Int = 4\n");
    assert!(result.diagnostics.is_empty(), "{:#?}", result.diagnostics);
    let program = result.program.expect("program");
    assert!(program.module.is_none());
    assert!(program.imports.is_empty());
    assert_eq!(program.items.len(), 4);
    assert!(matches!(&program.items[0], Item::Function(f) if f.name == "first"));
    assert!(matches!(&program.items[1], Item::Type(t) if t.name == "Second" && t.members.is_empty()));
    assert!(matches!(&program.items[2], Item::Function(f) if f.name == "third"));
    match &program.items[3] {
        Item::Function(f) => {
            assert_eq!(f.name, "fourth");
            assert!(matches!(&f.body, CallableBody::Expr(Expr::Integer { raw, .. }) if raw == "4"));
        },
        other => panic!("expected a function, got {other:#?}"),
    }
}

#[test]
fn a_record_literal_keeps_its_fields_in_order() {
    let result = parse_flat("def make() Unit {\n  p = record { x = 1, y = 2 }\n}\n");
    assert!(result.diagnostics.is_empty(), "{:#?}", result.diagnostics);
    let program = result.program.expect("program");
    let Item::Function(function) = &program.items[0] else { panic!("expected a function") };
    let CallableBody::Block(block) = &function.body else { panic!("expected a block body") };
    let Stmt::Binding(binding) = &block.statements[0] else { panic!("expected a binding") };
    match &binding.values[0] {
        Expr::RecordLiteral { fields, values, .. } => {
            assert!(values.is_empty());
            assert_eq!(fields.len(), 2);
            assert_eq!(fields[0].name.as_deref(), Some("x"));
            assert!(matches!(&fields[0].value, Expr::Integer { raw, .. } if raw == "1"));
            assert_eq!(fields[1].name.as_deref(), Some("y"));
            assert!(matches!(&fields[1].value, Expr::Integer { raw, .. } if raw == "2"));
        },
        other => panic!("expected a record literal, got {other:#?}"),
    }
}

#[test]
fn a_top_level_call_is_skipped_without_a_diagnostic() {
    let result = parse_flat("println(1)\ndef f() Int {}\n");
    assert!(result.diagnostics.is_empty(), "{:#?}", result.diagnostics);
    let program = result.program.expect("program");
    assert_eq!(program.items.len(), 1);
    assert!(matches!(&program.items[0], Item::Function(f) if f.name == "f"));
}

#[test]
fn a_constructor_pattern_keeps_each_argument() {
    let result = parse_flat("def f() Int {\n  match v {\n    case Pair(a, _) => 1\n  }\n}\n");
    assert!(result.diagnostics.is_empty(), "{:#?}", result.diagnostics);
    let program = result.program.expect("program");
    let Item::Function(function) = &program.items[0] else { panic!("expected a function") };
    let CallableBody::Block(block) = &function.body else { panic!("expected a block body") };
    let Stmt::Match(m) = &block.statements[0] else { panic!("expected a match") };
    match &m.cases[0].pattern {
        Pattern::Constructor { path, args, .. } => {
            assert_eq!(path, &vec!["Pair".to_string()]);
            assert_eq!(args.len(), 2);
            assert!(matches!(&args[0], Pattern::Binding { name, .. } if name == "a"));
            assert!(matches!(&args[1], Pattern::Wildcard { .. }));
        },
        other => panic!("expected a constructor pattern, got {other:#?}"),
    }
}

#[test]
fn let_with_one_name_binds_one_value() {
    let result = parse_flat("def f() Int {\n  let x = 3\n}\n");
    assert!(result.diagnostics.is_empty(), "{:#?}", result.diagnostics);
    let program = result.program.expect("program");
    let Item::Function(function) = &program.items[0] else { panic!("expected a function") };
    let CallableBody::Block(block) = &function.body else { panic!("expected a block body") };
    let Stmt::Binding(binding) = &block.statements[0] else { panic!("expected a binding") };
    assert_eq!(binding.bindings.len(), 1);
    assert_eq!(binding.bindings[0].name, "x");
    assert!(matches!(&binding.values[0], Expr::Integer { raw, .. } if raw == "3"));
}

#[test]
fn a_class_of_simple_members_keeps_them_in_order() {
    let result = parse_flat("class A {\n  def m() Int {}\n  x Int\n}\n");
    assert!(result.diagnostics.is_empty(), "{:#?}", result.diagnostics);
    let program = result.program.expect("program");
    let Item::Type(decl) = &program.items[0] else { panic!("expected a type") };
    assert_eq!(decl.members.len(), 2);
    assert!(matches!(&decl.members[0], lume::ast::TypeMember::Method(m) if m.name == "m"));
    assert!(matches!(&decl.members[1], lume::ast::TypeMember::Field(f) if f.name == "x"));
}

#[test]
fn postfix_steps_nest_from_left_to_right_in_the_record_dialect() {
    let result = parse_flat("def f() Int = a.b(1)\n");
    assert!(result.diagnostics.is_empty(), "{:#?}", result.diagnostics);
    let program = result.program.expect("program");
    let Item::Function(function) = &program.items[0] else { panic!("expected a function") };
    match &function.body {
        CallableBody::Expr(Expr::Call { callee, args, .. }) => {
            assert_eq!(args.len(), 1);
            assert!(args[0].name.is_none());
            assert!(matches!(&args[0].value, Expr::Integer { raw, .. } if raw == "1"));
            match &**callee {
                Expr::Member { receiver, name, .. } => {
                    assert_eq!(name, "b");
                    assert!(matches!(&**receiver, Expr::Identifier { name, .. } if name == "a"));
                },
                other => panic!("expected a member, got {other:#?}"),
            }
        },
        other => panic!("expected a call body, got {other:#?}"),
    }
}

#[test]
fn a_class_and_an_impl_of_simple_members_parse_cleanly() {
    let result = parse_flat("\nclass Counter {\n  count Int\n}\n\nimpl Counter {\n  def bump() Int {}\n}\n");
    assert!(result.diagnostics.is_empty(), "{:#?}", result.diagnostics);
    let program = result.program.expect("program");
    assert_eq!(program.items.len(), 2);
    assert!(matches!(&program.items[0], Item::Type(t) if t.name == "Counter" && t.members.len() == 1));
    match &program.items[1] {
        Item::Impl(block) => {
            assert_eq!(block.methods.len(), 1);
            assert_eq!(block.methods[0].name, "bump");
        },
        other => panic!("expected an impl block, got {other:#?}"),
    }
}

#[test]
fn named_and_typed_parameters_are_kept_in_order() {
    let result = parse_flat("def run(limit Int, step Int) Int {}\nimpl Counter {\n  def bump(delta Int) Int {}\n}\n");
    assert!(result.diagnostics.is_empty(), "{:#?}", result.diagnostics);
    let program = result.program.expect("program");
    assert_eq!(program.items.len(), 2);
    match &program.items[0] {
        Item::Function(f) => {
            assert_eq!(f.name, "run");
            let names: Vec<&str> = f.params.iter().map(|p| p.name.as_str()).collect();
            assert_eq!(names, vec!["limit", "step"]);
            assert!(f.params.iter().all(|p| !p.variadic && matches!(&p.ty, Some(TypeRef::Named { name, .. }) if name == "Int")));
        },
        other => panic!("expected a function, got {other:#?}"),
    }
    match &program.items[1] {
        Item::Impl(block) => {
            assert_eq!(block.methods.len(), 1);
            assert_eq!(block.methods[0].params.len(), 1);
            assert_eq!(block.methods[0].params[0].name, "delta");
        },
        other => panic!("expected an impl block, got {other:#?}"),
    }
}
