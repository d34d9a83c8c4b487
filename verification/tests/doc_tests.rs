use sapphire::doc::{extract_file_doc, format_expr};
use sapphire::lexer::Lexer;
use sapphire::parser::Parser;

fn program(source: &str) -> Vec<sapphire::ast::Expr> {
    let tokens = Lexer::new(source).scan_tokens();
    Parser::new(tokens).parse().unwrap()
}

#[test]
fn doc_of_function() {
    let d = extract_file_doc(&program("def greet(name: String, times: Int) -> String { name }"));
    assert_eq!(d.functions.len(), 1);
    let f = &d.functions[0];
    assert_eq!(f.name, "greet");
    assert_eq!(f.params.len(), 2);
    assert_eq!(f.params[0].name, "name");
    assert_eq!(f.params[0].type_ann.as_deref(), Some("String"));
    assert_eq!(f.params[1].type_ann.as_deref(), Some("Int"));
    assert_eq!(f.params[1].default, None);
    assert_eq!(f.return_type.as_deref(), Some("String"));
    assert!(d.classes.is_empty());
}

#[test]
fn doc_of_class_fields_and_methods() {
    let src = "class Shape {\n  attr color = \"red\"\n  attr size: Int\n  def area() -> Int { 0 }\n}";
    let d = extract_file_doc(&program(src));
    assert_eq!(d.classes.len(), 1);
    let c = &d.classes[0];
    assert_eq!(c.name, "Shape");
    assert_eq!(c.superclass, None);
    assert_eq!(c.fields.len(), 2);
    assert_eq!(c.fields[0].name, "color");
    assert_eq!(c.fields[0].default.as_deref(), Some("\"red\""));
    assert_eq!(c.fields[1].type_ann.as_deref(), Some("Int"));
    assert_eq!(c.methods.len(), 1);
    assert_eq!(c.methods[0].name, "area");
    assert_eq!(c.methods[0].return_type.as_deref(), Some("Int"));
}

#[test]
fn doc_leaves_out_test_classes() {
    let src = "class Shape { }\nclass Circle < Shape { }\nclass ShapeTest < Test { }";
    let d = extract_file_doc(&program(src));
    assert_eq!(d.classes.len(), 2);
    assert_eq!(d.classes[1].name, "Circle");
    assert_eq!(d.classes[1].superclass.as_deref(), Some("Shape"));
}

#[test]
fn doc_of_type_alias_and_interface() {
    let src = "type Id = Int | String\ninterface Drawable {\n  def draw(x: Int) -> Nil\n}";
    let d = extract_file_doc(&program(src));
    assert_eq!(d.type_aliases.len(), 1);
    assert_eq!(d.type_aliases[0].name, "Id");
    assert_eq!(d.type_aliases[0].type_expr, "Int | String");
    assert_eq!(d.interfaces.len(), 1);
    assert_eq!(d.interfaces[0].name, "Drawable");
    assert_eq!(d.interfaces[0].methods.len(), 1);
    assert_eq!(d.interfaces[0].methods[0].name, "draw");
}

#[test]
fn format_expr_writes_source_back() {
    let e = &program("[1, \"a\", x.y, foo(1, b: 2), -z, 1..3]")[0];
    assert_eq!(format_expr(e), "[1, \"a\", x.y(), foo(1, b: 2), -z, 1..3]");
    let m = &program("{a: 1, b: nil}")[0];
    assert_eq!(format_expr(m), "{a: 1, b: nil}");
    let other = &program("1 + 2")[0];
    assert_eq!(format_expr(other), "...");
}
