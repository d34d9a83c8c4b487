use sapphire::ast::TypeExpr;
use sapphire::chunk::{Constant, OpCode, RuntimeType};
use sapphire::compiler::{compile, compile_repl, erase_type_vars, levenshtein, resolve_include_names, suggest_name, type_expr_runtime};
use sapphire::lexer::Lexer;
use sapphire::parser::Parser;

fn program(source: &str) -> Vec<sapphire::ast::Expr> {
    let tokens = Lexer::new(source).scan_tokens();
    Parser::new(tokens).parse().unwrap()
}

fn jump_target(i: usize, op: &OpCode) -> Option<i64> {
    let i = i as i64;
    match op {
        OpCode::Jump(o)
        | OpCode::JumpIfFalse(o)
        | OpCode::JumpIfFalseKeep(o)
        | OpCode::JumpIfTrueKeep(o) => Some(i + 1 + *o as i64),
        OpCode::Loop(o) => Some(i + 1 - *o as i64),
        _ => None,
    }
}

fn assert_jumps_in_range(code: &[OpCode]) {
    for (i, op) in code.iter().enumerate() {
        if let Some(t) = jump_target(i, op) {
            assert!(t >= 0 && t <= code.len() as i64, "jump at {} lands at {}", i, t);
        }
    }
}

#[test]
fn compile_addition() {
    let f = compile(&program("1 + 2")).unwrap();
    assert_eq!(f.arity, 0);
    assert_eq!(
        f.chunk.code,
        vec![OpCode::Constant(0), OpCode::Constant(1), OpCode::Add, OpCode::Return]
    );
    assert!(matches!(f.chunk.constants[0], Constant::Int(1)));
    assert!(matches!(f.chunk.constants[1], Constant::Int(2)));
    assert_eq!(f.chunk.lines.len(), f.chunk.code.len());
}

#[test]
fn compile_empty_program() {
    let f = compile(&[]).unwrap();
    assert_eq!(f.chunk.code, vec![OpCode::Nil, OpCode::Return]);
}

#[test]
fn compile_short_circuit_jump_is_patched() {
    let f = compile(&program("true && false")).unwrap();
    assert_eq!(
        f.chunk.code,
        vec![OpCode::True, OpCode::JumpIfFalseKeep(1), OpCode::False, OpCode::Return]
    );
}

#[test]
fn compile_control_flow_jumps_stay_inside() {
    let src = "x = 0\nwhile x < 10 {\n  if x == 5 { break }\n  x = x + 1\n}\nif x > 3 { print x } else { print 0 }\nx";
    let f = compile(&program(src)).unwrap();
    assert_jumps_in_range(&f.chunk.code);
    assert_eq!(f.chunk.lines.len(), f.chunk.code.len());
    assert_eq!(*f.chunk.code.last().unwrap(), OpCode::Return);
}

#[test]
fn compile_undefined_variable() {
    let e = compile(&program("foo")).unwrap_err();
    assert_eq!(e.message, "undefined variable 'foo'");
}

#[test]
fn compile_undefined_variable_with_suggestion() {
    let e = compile(&program("count = 1\ncout")).unwrap_err();
    assert_eq!(e.message, "undefined variable 'cout' \u{2014} did you mean 'count'?");
    assert!(e.to_string().ends_with("] compile error: undefined variable 'cout' \u{2014} did you mean 'count'?"));
}

#[test]
fn compile_repl_makes_globals() {
    assert!(compile_repl(&program("foo")).is_ok());
}

#[test]
fn levenshtein_known_values() {
    assert_eq!(levenshtein("kitten", "sitting"), 3);
    assert_eq!(levenshtein("", "abc"), 3);
    assert_eq!(levenshtein("same", "same"), 0);
}

#[test]
fn suggest_name_picks_closest_within_threshold() {
    let c = vec!["apple".to_string(), "count".to_string(), "counter".to_string()];
    assert_eq!(suggest_name("cout", &c), Some(1));
    assert_eq!(suggest_name("zzzzzz", &c), None);
}

#[test]
fn erase_and_runtime_checks() {
    let te = TypeExpr::Apply(
        "List".to_string(),
        vec![TypeExpr::Named("T".to_string()), TypeExpr::Named("Int".to_string())],
    );
    let tv = vec!["T".to_string()];
    match erase_type_vars(&te, &tv) {
        TypeExpr::Apply(n, args) => {
            assert_eq!(n, "List");
            assert!(matches!(args[0], TypeExpr::Any));
            assert!(matches!(&args[1], TypeExpr::Named(x) if x == "Int"));
        }
        other => panic!("unexpected {:?}", other),
    }
    let ifs = vec!["Drawable".to_string()];
    let u = TypeExpr::Union(vec![TypeExpr::Named("Drawable".to_string()), TypeExpr::Named("Int".to_string()), TypeExpr::Any]);
    assert_eq!(type_expr_runtime(&u, &ifs), Some(RuntimeType::Union(vec![RuntimeType::Named("Int".to_string())])));
    assert_eq!(type_expr_runtime(&TypeExpr::Named("Drawable".to_string()), &ifs), None);
    assert_eq!(type_expr_runtime(&TypeExpr::Any, &ifs), None);
}

#[test]
fn nested_includes_get_enclosing_prefix() {
    let stack = vec!["Outer".to_string(), "Mid".to_string()];
    let includes = vec!["A.B".to_string(), "C".to_string()];
    let out = resolve_include_names(&stack, &includes);
    assert_eq!(out, vec!["Outer.Mid.A.B".to_string(), "C".to_string()]);
}

#[test]
fn compile_operands_in_order_then_operator() {
    let f = compile(&program("7 - 2 * 3\n5")).unwrap();
    assert_eq!(
        f.chunk.code,
        vec![
            OpCode::Constant(0),
            OpCode::Constant(1),
            OpCode::Constant(2),
            OpCode::Mul,
            OpCode::Sub,
            OpCode::Pop,
            OpCode::Constant(3),
            OpCode::Return
        ]
    );
    assert!(matches!(f.chunk.constants[0], Constant::Int(7)));
    assert!(matches!(f.chunk.constants[3], Constant::Int(5)));
}

#[test]
fn compile_if_else_jumps_over_each_branch() {
    let f = compile(&program("if 1 < 2 { 10 } else { 20 }")).unwrap();
    assert_eq!(
        f.chunk.code,
        vec![
            OpCode::Constant(0),
            OpCode::Constant(1),
            OpCode::Less,
            OpCode::JumpIfFalse(2),
            OpCode::Constant(2),
            OpCode::Jump(1),
            OpCode::Constant(3),
            OpCode::Return
        ]
    );
}

#[test]
fn compile_while_loops_back_to_its_condition() {
    let f = compile(&program("while 1 < 2 { 3 }")).unwrap();
    assert_eq!(
        f.chunk.code,
        vec![
            OpCode::Constant(0),
            OpCode::Constant(1),
            OpCode::Less,
            OpCode::JumpIfFalse(3),
            OpCode::Constant(2),
            OpCode::Pop,
            OpCode::Loop(7),
            OpCode::Nil,
            OpCode::Return
        ]
    );
}

#[test]
fn compile_reads_locals_in_operand_order() {
    let f = compile(&program("x = 1\ny = 2\ny - x")).unwrap();
    let code = &f.chunk.code;
    let i = code.iter().position(|op| matches!(op, OpCode::Sub)).unwrap();
    match (&code[i - 2], &code[i - 1]) {
        (OpCode::GetLocal(a), OpCode::GetLocal(b)) => assert_eq!(*a, *b + 1),
        other => panic!("unexpected operands {:?}", other),
    }
}

#[test]
fn compile_assignment_stores_into_the_latest_slot() {
    let f = compile(&program("x = 1\ny = 2\nx = y + 3\nx")).unwrap();
    let code = &f.chunk.code;
    let i = code.iter().position(|op| matches!(op, OpCode::SetLocal(_))).unwrap();
    assert!(matches!(code[i - 1], OpCode::Add));
    assert!(matches!(code[i + 1], OpCode::Pop));
    match (&code[i], &code[i - 3]) {
        (OpCode::SetLocal(x), OpCode::GetLocal(y)) => assert_eq!(*x + 1, *y),
        other => panic!("unexpected code {:?}", other),
    }
}
