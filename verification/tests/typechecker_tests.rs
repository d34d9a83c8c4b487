use sapphire::ast::{Expr, TypeExpr};
use sapphire::lexer::Lexer;
use sapphire::parser::Parser;
use sapphire::typechecker::{check_union_duplicates, te_name, types_compatible, TypeChecker};
use sapphire::value::Value;

fn parse(source: &str) -> Vec<Expr> {
    let tokens = Lexer::new(source).scan_tokens();
    Parser::new(tokens).parse().unwrap()
}

fn messages(source: &str) -> Vec<String> {
    TypeChecker::check(&parse(source)).into_iter().map(|e| e.message).collect()
}

fn named(n: &str) -> TypeExpr {
    TypeExpr::Named(n.to_string())
}

#[test]
fn compatible_names_and_num() {
    assert!(types_compatible(&named("Int"), &named("Int")));
    assert!(types_compatible(&named("Int"), &named("Num")));
    assert!(types_compatible(&named("Float"), &named("Num")));
    assert!(!types_compatible(&named("String"), &named("Num")));
    assert!(!types_compatible(&named("Num"), &named("Int")));
    assert!(types_compatible(&named("Foo"), &TypeExpr::Any));
    assert!(types_compatible(&TypeExpr::Any, &named("Foo")));
}

#[test]
fn compatible_unions_and_applications() {
    let int_or_str = TypeExpr::Union(vec![named("Int"), named("String")]);
    assert!(types_compatible(&named("String"), &int_or_str));
    assert!(!types_compatible(&int_or_str, &named("Int")));
    assert!(types_compatible(&int_or_str, &int_or_str));
    let list_int = TypeExpr::Apply("List".to_string(), vec![named("Int")]);
    let list_str = TypeExpr::Apply("List".to_string(), vec![named("String")]);
    assert!(types_compatible(&list_int, &list_int));
    assert!(!types_compatible(&list_int, &list_str));
    assert!(types_compatible(&named("List"), &list_str));
    assert!(types_compatible(&list_str, &named("List")));
    assert!(types_compatible(&TypeExpr::Literal(Value::Int(3)), &named("Int")));
    assert!(types_compatible(&TypeExpr::Literal(Value::Int(3)), &named("Num")));
    assert!(!types_compatible(&TypeExpr::Literal(Value::Int(3)), &TypeExpr::Literal(Value::Int(4))));
    assert!(!types_compatible(&named("Int"), &TypeExpr::Literal(Value::Int(3))));
}

#[test]
fn type_names() {
    let map = TypeExpr::Apply("Map".to_string(), vec![named("String"), named("Int")]);
    assert_eq!(te_name(&map), "Map[String, Int]");
    let u = TypeExpr::Union(vec![named("Int"), TypeExpr::Literal(Value::Str("a\"b".to_string())), TypeExpr::Literal(Value::Nil)]);
    assert_eq!(te_name(&u), "Int | \"a\\\"b\" | Nil");
    assert_eq!(te_name(&TypeExpr::Literal(Value::Int(-5))), "-5");
    assert_eq!(te_name(&TypeExpr::Literal(Value::Bool(true))), "true");
    assert_eq!(te_name(&TypeExpr::Any), "Any");
}

#[test]
fn union_duplicates() {
    let u = TypeExpr::Union(vec![named("Int"), named("String"), named("Int")]);
    assert_eq!(check_union_duplicates(&u), Some("duplicate type 'Int' in union".to_string()));
    let v = TypeExpr::Union(vec![named("Int"), named("String")]);
    assert_eq!(check_union_duplicates(&v), None);
    assert_eq!(check_union_duplicates(&named("Int")), None);
}

#[test]
fn empty_program_has_no_errors() {
    assert!(TypeChecker::check(&[]).is_empty());
}

#[test]
fn return_type_mismatch() {
    assert_eq!(
        messages("def f(x: Int) -> Int { \"hi\" }"),
        vec!["return value expected Int, got String".to_string()]
    );
}

#[test]
fn matching_return_type_is_fine() {
    assert!(messages("def f(x: Int) -> Int { x }").is_empty());
    assert!(messages("def f(x: Int) -> Num { 1 + 2 }").is_empty());
}

#[test]
fn argument_type_mismatch() {
    assert_eq!(
        messages("def f(x: Int) { x }\nf(\"s\")"),
        vec!["argument 'x' to 'f' expected Int, got String".to_string()]
    );
}

#[test]
fn duplicate_union_arm_in_annotation() {
    assert_eq!(
        messages("def g(x: Int | Int) { x }"),
        vec!["duplicate type 'Int' in union".to_string()]
    );
}

#[test]
fn inferred_return_types_are_recorded() {
    let info = TypeChecker::check_info(&parse("def f() { 1 }\ndef g() { f() }\ndef h() -> String { \"x\" }"));
    assert!(info.errors.is_empty());
    assert!(matches!(info.types.function_return_type("f"), Some(Some(TypeExpr::Named(n))) if n == "Int"));
    assert!(matches!(info.types.function_return_type("g"), Some(Some(TypeExpr::Named(n))) if n == "Int"));
    assert!(matches!(info.types.function_return_type("h"), Some(Some(TypeExpr::Named(n))) if n == "String"));
    assert!(info.types.function_return_type("nope").is_none());
}

#[test]
fn later_definitions_are_propagated() {
    let info = TypeChecker::check_info(&parse("def g() { f() }\ndef f() { \"s\" }"));
    assert!(matches!(info.types.function_return_type("g"), Some(Some(TypeExpr::Named(n))) if n == "String"));
}

#[test]
fn error_display() {
    let errs = TypeChecker::check(&parse("def f(x: Int) -> Int { \"hi\" }"));
    assert_eq!(errs[0].to_string(), "type error: return value expected Int, got String");
}

#[test]
fn literal_return_mismatch_is_reported() {
    let tokens = Lexer::new("def f() -> Int { \"hi\" }").scan_tokens();
    let exprs = Parser::new(tokens).parse().unwrap();
    let errors = TypeChecker::check(&exprs);
    assert!(errors.iter().any(|e| e.message == "return value expected Int, got String"));
}

#[test]
fn literal_bodies_record_their_return_types() {
    let exprs = Parser::new(Lexer::new("def f() { 1 }").scan_tokens()).parse().unwrap();
    let info = TypeChecker::check_info(&exprs);
    assert!(matches!(info.types.function_return_type("f"), Some(Some(TypeExpr::Named(n))) if n == "Int"));
    let exprs = Parser::new(Lexer::new("def g() -> String { \"s\" }").scan_tokens()).parse().unwrap();
    let info = TypeChecker::check_info(&exprs);
    assert!(matches!(info.types.function_return_type("g"), Some(Some(TypeExpr::Named(n))) if n == "String"));
    assert!(info.types.function_return_type("h").is_none());
}
