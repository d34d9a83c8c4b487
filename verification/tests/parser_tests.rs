use sapphire::ast::{Expr, TypeExpr};
use sapphire::lexer::Lexer;
use sapphire::parser::Parser;
use sapphire::token::TokenKind;
use sapphire::value::Value;

fn parse_expr(source: &str) -> Expr {
    let tokens = Lexer::new(source).scan_tokens();
    let mut exprs = Parser::new(tokens).parse().unwrap();
    exprs.remove(0)
}

#[test]
fn test_literal() {
    assert!(matches!(parse_expr("42"), Expr::Literal(Value::Int(42))));
}

#[test]
fn test_addition() {
    assert!(matches!(parse_expr("1+2"), Expr::Binary { .. }));
}

#[test]
fn test_precedence() {
    let expr = parse_expr("1+2*3");
    if let Expr::Binary { op, right, .. } = expr {
        assert_eq!(op.kind, TokenKind::Plus);
        assert!(matches!(*right, Expr::Binary { .. }));
    } else {
        panic!("expected Binary");
    }
}

#[test]
fn test_grouping() {
    let expr = parse_expr("(1+2)*3");
    if let Expr::Binary { op, left, .. } = expr {
        assert_eq!(op.kind, TokenKind::Star);
        assert!(matches!(*left, Expr::Grouping(_)));
    } else {
        panic!("expected Binary");
    }
}

#[test]
fn test_parse_error() {
    let tokens = Lexer::new("1+").scan_tokens();
    assert!(Parser::new(tokens).parse().is_err());
}

#[test]
fn test_print_statement() {
    let tokens = Lexer::new("print 42").scan_tokens();
    let mut exprs = Parser::new(tokens).parse().unwrap();
    match exprs.remove(0) {
        Expr::Print(inner) => {
            assert!(matches!(*inner, Expr::Literal(Value::Int(42))));
        }
        other => panic!("expected print expr, got {:?}", other),
    }
}

#[test]
fn test_multiple_statements() {
    let tokens = Lexer::new("x = 1; x + 2").scan_tokens();
    let stmts = Parser::new(tokens).parse().unwrap();
    assert_eq!(stmts.len(), 2);
}

#[test]
fn test_include_requires_parens() {
    let ok = Parser::new(Lexer::new("class C { include(M) }\n").scan_tokens()).parse();
    assert!(ok.is_ok());
    let ok2 = Parser::new(Lexer::new("class C { include(Outer.Inner) }\n").scan_tokens()).parse();
    assert!(ok2.is_ok());
    assert!(
        Parser::new(Lexer::new("class C { include M }\n").scan_tokens())
            .parse()
            .is_err()
    );
}

#[test]
fn test_class_def() {
    let tokens = Lexer::new("class Point { attr x; attr y }").scan_tokens();
    let mut exprs = Parser::new(tokens).parse().unwrap();
    assert!(matches!(
        exprs.remove(0),
        Expr::Class { name, .. } if name == "Point"
    ));
}

#[test]
fn test_field_access() {
    // Without parens, dot access is a zero-arg call (parens are optional)
    let expr = parse_expr("p.x");
    assert!(matches!(
        expr,
        Expr::Call { callee, args, .. }
        if args.is_empty() && matches!(callee.as_ref(), Expr::Get { name, .. } if name == "x")
    ));
}

#[test]
fn test_named_arg_call() {
    let expr = parse_expr("Point.new(x: 1, y: 2)");
    assert!(matches!(expr, Expr::Call { .. }));
}

#[test]
fn test_generic_class_def() {
    let tokens = Lexer::new("class Box[T] { attr value: T }").scan_tokens();
    let mut exprs = Parser::new(tokens).parse().unwrap();
    match exprs.remove(0) {
        Expr::Class { name, type_params, .. } => {
            assert_eq!(name, "Box");
            assert_eq!(type_params, vec!["T"]);
        }
        _ => panic!("expected class"),
    }
}

#[test]
fn test_generic_multi_param_class() {
    let tokens = Lexer::new("class Pair[A, B] { attr first: A\nattr second: B }").scan_tokens();
    let mut exprs = Parser::new(tokens).parse().unwrap();
    match exprs.remove(0) {
        Expr::Class { name, type_params, .. } => {
            assert_eq!(name, "Pair");
            assert_eq!(type_params, vec!["A", "B"]);
        }
        _ => panic!("expected class"),
    }
}

#[test]
fn test_parameterized_type_annotation() {
    let tokens = Lexer::new("def foo(x: List[Int]) {}").scan_tokens();
    let mut exprs = Parser::new(tokens).parse().unwrap();
    match exprs.remove(0) {
        Expr::Function { params, .. } => {
            assert_eq!(
                params[0].type_ann,
                Some(TypeExpr::Apply("List".into(), vec![TypeExpr::Named("Int".into())]))
            );
        }
        _ => panic!("expected function"),
    }
}

#[test]
fn test_generic_function_def() {
    let tokens = Lexer::new("def identity[T](x: T) -> T { x }").scan_tokens();
    let mut exprs = Parser::new(tokens).parse().unwrap();
    match exprs.remove(0) {
        Expr::Function { name, type_params, .. } => {
            assert_eq!(name, "identity");
            assert_eq!(type_params, vec!["T"]);
        }
        _ => panic!("expected function"),
    }
}

#[test]
fn test_map_type_annotation() {
    let tokens = Lexer::new("def foo(m: Map[String, Int]) {}").scan_tokens();
    let mut exprs = Parser::new(tokens).parse().unwrap();
    match exprs.remove(0) {
        Expr::Function { params, .. } => {
            assert_eq!(
                params[0].type_ann,
                Some(TypeExpr::Apply(
                    "Map".into(),
                    vec![TypeExpr::Named("String".into()), TypeExpr::Named("Int".into())]
                ))
            );
        }
        _ => panic!("expected function"),
    }
}

#[test]
fn test_type_alias_string_literal_type() {
    let tokens = Lexer::new("type Mode = \"dev\" | \"prod\"").scan_tokens();
    let mut exprs = Parser::new(tokens).parse().unwrap();
    match exprs.remove(0) {
        Expr::TypeAlias { type_expr, .. } => match type_expr {
            TypeExpr::Union(arms) => {
                assert!(matches!(arms[0], TypeExpr::Literal(Value::Str(_))));
                assert!(matches!(arms[1], TypeExpr::Literal(Value::Str(_))));
            }
            other => panic!("expected union type, got {:?}", other),
        },
        other => panic!("expected type alias, got {:?}", other),
    }
}

#[test]
fn a_lone_number_parses_to_its_literal() {
    let tokens = Lexer::new("42").scan_tokens();
    assert_eq!(tokens.len(), 2);
    assert!(matches!(tokens[0].kind, TokenKind::Number(42)));
    let exprs = Parser::new(tokens).parse().unwrap();
    assert_eq!(exprs.len(), 1);
    assert!(matches!(&exprs[0], Expr::Literal(Value::Int(42))));
}

#[test]
fn a_lone_name_lexes_to_one_token() {
    let tokens = Lexer::new("foo").scan_tokens();
    assert_eq!(tokens.len(), 2);
    assert!(matches!(&tokens[0].kind, TokenKind::Identifier(t) if t == "foo"));
    let tokens = Lexer::new("while").scan_tokens();
    assert_eq!(tokens.len(), 2);
    assert!(matches!(tokens[0].kind, TokenKind::While));
}

#[test]
fn print_of_a_number_parses_to_print() {
    let exprs = Parser::new(Lexer::new("print 42").scan_tokens()).parse().unwrap();
    assert_eq!(exprs.len(), 1);
    assert!(matches!(&exprs[0], Expr::Print(inner) if matches!(**inner, Expr::Literal(Value::Int(42)))));
}

#[test]
fn products_bind_tighter_than_sums() {
    let exprs = Parser::new(Lexer::new("1 + 2 * 3 - 4").scan_tokens()).parse().unwrap();
    assert_eq!(exprs.len(), 1);
    match &exprs[0] {
        Expr::Binary { left, op, right } => {
            assert!(matches!(op.kind, TokenKind::Minus));
            assert!(matches!(**right, Expr::Literal(Value::Int(4))));
            match &**left {
                Expr::Binary { left: l2, op: o2, right: r2 } => {
                    assert!(matches!(o2.kind, TokenKind::Plus));
                    assert!(matches!(**l2, Expr::Literal(Value::Int(1))));
                    assert!(matches!(**r2, Expr::Binary { .. }));
                }
                _ => panic!("expected a sum"),
            }
        }
        _ => panic!("expected a binary expression"),
    }
}

#[test]
fn an_arithmetic_source_lexes_token_by_token() {
    let tokens = Lexer::new("12 + 3*4").scan_tokens();
    let kinds: Vec<TokenKind> = tokens.into_iter().map(|t| t.kind).collect();
    assert_eq!(kinds.len(), 6);
    assert!(matches!(kinds[0], TokenKind::Number(12)));
    assert!(matches!(kinds[1], TokenKind::Plus));
    assert!(matches!(kinds[2], TokenKind::Number(3)));
    assert!(matches!(kinds[3], TokenKind::Star));
    assert!(matches!(kinds[4], TokenKind::Number(4)));
    assert!(matches!(kinds[5], TokenKind::Eof));
}

#[test]
fn list_literal_keeps_element_order() {
    let tokens = Lexer::new("[1, 2 + 3, 4]").scan_tokens();
    let exprs = Parser::new(tokens).parse().unwrap();
    match &exprs[0] {
        Expr::ListLit(es) => {
            assert_eq!(es.len(), 3);
            assert!(matches!(es[0], Expr::Literal(Value::Int(1))));
            assert!(matches!(es[1], Expr::Binary { .. }));
            assert!(matches!(es[2], Expr::Literal(Value::Int(4))));
        }
        _ => panic!("expected a list literal"),
    }
}

#[test]
fn assignment_keeps_its_value() {
    match parse_expr("total = 1 + 2 * 3") {
        Expr::Assign { name, value } => {
            assert_eq!(name, "total");
            match *value {
                Expr::Binary { left, right, .. } => {
                    assert!(matches!(*left, Expr::Literal(Value::Int(1))));
                    assert!(matches!(*right, Expr::Binary { .. }));
                }
                _ => panic!("expected a sum"),
            }
        }
        _ => panic!("expected an assignment"),
    }
}

#[test]
fn if_else_keeps_its_branches_apart() {
    match parse_expr("if 1 < 2 { 10 } else { 20 }") {
        Expr::If { condition, then_branch, else_branch } => {
            assert!(matches!(*condition, Expr::Binary { .. }));
            assert_eq!(then_branch.len(), 1);
            assert!(matches!(then_branch[0], Expr::Literal(Value::Int(10))));
            let es = else_branch.unwrap();
            assert_eq!(es.len(), 1);
            assert!(matches!(es[0], Expr::Literal(Value::Int(20))));
        }
        _ => panic!("expected an if"),
    }
}

#[test]
fn brackets_and_commas_lex_one_token_each() {
    let kinds: Vec<TokenKind> = Lexer::new("[1, 2]{}").scan_tokens().into_iter().map(|t| t.kind).collect();
    assert!(matches!(
        kinds.as_slice(),
        [
            TokenKind::LeftBracket,
            TokenKind::Number(1),
            TokenKind::Comma,
            TokenKind::Number(2),
            TokenKind::RightBracket,
            TokenKind::LeftBrace,
            TokenKind::RightBrace,
            TokenKind::Eof
        ]
    ));
}
