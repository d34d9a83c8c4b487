//! The abstract syntax tree produced by the parser.
use vstd::prelude::*;

use crate::token::Token;
use crate::value::{value_same, values_same, Value};

verus! {

#[derive(Debug)]
pub enum Pattern {
    Literal(Value),
    Type(String),
    Binding(String),
    Wildcard,
    Range(Value, Value),
    List(Vec<Pattern>),
}

#[derive(Debug)]
pub struct MatchArm {
    pub patterns: Vec<Pattern>,
    pub guard: Option<Box<Expr>>,
    pub body: Vec<Expr>,
}

#[derive(Debug)]
pub enum TypeExpr {
    /// A bare type name: `Int`, `String`, `Bool`, `Float`, `Nil`, or a class name.
    Named(String),
    /// A parameterized type: `List[Int]`, `Map[String, Bool]`, `Box[T]`.
    Apply(String, Vec<TypeExpr>),
    /// A literal type: `42`, `"ok"`, `true`, `false`.
    Literal(Value),
    /// A union of two or more types: `Int | String`. Always has >= 2 arms.
    Union(Vec<TypeExpr>),
    /// The type that admits every value.
    Any,
}

/// Structural equality of type expressions (names and strings by their
/// characters).
pub open spec fn type_expr_eq(a: TypeExpr, b: TypeExpr) -> bool
    decreases a,
{
    match (a, b) {
        (TypeExpr::Named(x), TypeExpr::Named(y)) => x@ == y@,
        (TypeExpr::Apply(n1, a1), TypeExpr::Apply(n2, a2)) => n1@ == n2@ && a1@.len() == a2@.len()
            && forall|i: int| 0 <= i < a1@.len() ==> type_expr_eq(#[trigger] a1@[i], a2@[i]),
        (TypeExpr::Literal(v1), TypeExpr::Literal(v2)) => value_same(v1, v2),
        (TypeExpr::Union(u1), TypeExpr::Union(u2)) => u1@.len() == u2@.len() && forall|i: int|
            0 <= i < u1@.len() ==> type_expr_eq(#[trigger] u1@[i], u2@[i]),
        (TypeExpr::Any, TypeExpr::Any) => true,
        _ => false,
    }
}

fn type_exprs_eq(a: &Vec<TypeExpr>, b: &Vec<TypeExpr>, Ghost(parent): Ghost<TypeExpr>) -> (r: bool)
    requires
        forall|i: int| 0 <= i < a@.len() ==> decreases_to!(parent => #[trigger] a@[i]),
    ensures
        r == (a@.len() == b@.len() && forall|i: int|
            0 <= i < a@.len() ==> type_expr_eq(#[trigger] a@[i], b@[i])),
    decreases parent, 0nat,
{
    if a.len() != b.len() {
        return false;
    }
    let mut i: usize = 0;
    while i < a.len()
        invariant
            i <= a@.len(),
            a@.len() == b@.len(),
            forall|k: int| 0 <= k < a@.len() ==> decreases_to!(parent => #[trigger] a@[k]),
            forall|k: int| 0 <= k < i ==> type_expr_eq(#[trigger] a@[k], b@[k]),
        decreases a@.len() - i,
    {
        assert(decreases_to!(parent => a@[i as int]));
        if !type_expr_equal(&a[i], &b[i]) {
            return false;
        }
        i += 1;
    }
    true
}

/// Structural equality of two type expressions.
pub fn type_expr_equal(a: &TypeExpr, b: &TypeExpr) -> (r: bool)
    ensures
        r == type_expr_eq(*a, *b),
    decreases *a, 1nat,
{
    match (a, b) {
        (TypeExpr::Named(x), TypeExpr::Named(y)) => *x == *y,
        (TypeExpr::Apply(n1, a1), TypeExpr::Apply(n2, a2)) => {
            if *n1 != *n2 {
                return false;
            }
            proof {
                assert forall|i: int| 0 <= i < a1@.len() implies decreases_to!(*a => #[trigger] a1@[i]) by {
                    assert(decreases_to!(*a => *a1));
                    assert(decreases_to!(*a1 => a1@));
                    assert(decreases_to!(a1@ => a1@[i]));
                }
            }
            type_exprs_eq(a1, a2, Ghost(*a))
        },
        (TypeExpr::Literal(v1), TypeExpr::Literal(v2)) => values_same(v1, v2),
        (TypeExpr::Union(u1), TypeExpr::Union(u2)) => {
            proof {
                assert forall|i: int| 0 <= i < u1@.len() implies decreases_to!(*a => #[trigger] u1@[i]) by {
                    assert(decreases_to!(*a => *u1));
                    assert(decreases_to!(*u1 => u1@));
                    assert(decreases_to!(u1@ => u1@[i]));
                }
            }
            type_exprs_eq(u1, u2, Ghost(*a))
        },
        (TypeExpr::Any, TypeExpr::Any) => true,
        _ => false,
    }
}

impl PartialEq for TypeExpr {
    fn eq(&self, other: &Self) -> (r: bool) {
        type_expr_equal(self, other)
    }
}

impl vstd::std_specs::cmp::PartialEqSpecImpl for TypeExpr {
    open spec fn obeys_eq_spec() -> bool {
        true
    }

    open spec fn eq_spec(&self, other: &TypeExpr) -> bool {
        type_expr_eq(*self, *other)
    }
}

#[derive(Debug)]
pub struct ParamDef {
    pub name: String,
    pub type_ann: Option<TypeExpr>,
}

#[derive(Debug)]
pub struct Block {
    pub params: Vec<String>,
    pub body: Vec<Expr>,
}

#[derive(Debug)]
pub enum StringPart {
    Lit(String),
    Expr(Box<Expr>),
}

#[derive(Debug)]
pub struct FieldDef {
    pub name: String,
    pub type_ann: Option<TypeExpr>,
    pub default: Option<Expr>,
}

#[derive(Debug)]
pub struct MethodDef {
    pub name: String,
    pub type_params: Vec<String>,
    pub params: Vec<ParamDef>,
    pub return_type: Option<TypeExpr>,
    pub body: Vec<Expr>,
    pub private: bool,
    pub class_method: bool,
    pub is_abstract: bool,
}

#[derive(Debug)]
pub struct RescueClause {
    pub var: Option<String>,
    pub type_ann: Option<TypeExpr>,
    pub body: Vec<Expr>,
}

#[derive(Debug)]
pub struct CallArg {
    pub name: Option<String>,
    pub value: Expr,
}

#[derive(Debug)]
pub enum Expr {
    Literal(Value),
    Grouping(Box<Expr>),
    SelfExpr,
    Unary { op: Token, right: Box<Expr> },
    Binary { left: Box<Expr>, op: Token, right: Box<Expr> },
    Variable(String),
    Assign { name: String, value: Box<Expr> },
    Call { callee: Box<Expr>, args: Vec<CallArg>, block: Option<Block> },
    Get { object: Box<Expr>, name: String, line: usize },
    SafeGet { object: Box<Expr>, name: String, line: usize },
    SetAttr { object: Box<Expr>, name: String, value: Box<Expr> },
    StringInterp(Vec<StringPart>),
    ListLit(Vec<Expr>),
    MapLit(Vec<(String, Expr)>),
    Super {
        args: Vec<CallArg>,
        /// When true, pass the enclosing method's parameters (bare `super`).
        forward_args: bool,
        block: Option<Block>,
    },
    Index { object: Box<Expr>, index: Box<Expr> },
    IndexSet { object: Box<Expr>, index: Box<Expr>, value: Box<Expr> },
    Yield { args: Vec<CallArg> },
    Range { from: Box<Expr>, to: Box<Expr> },
    /// `if` / `elsif` / `else` — value is the last expression in the taken branch, or `nil`.
    If { condition: Box<Expr>, then_branch: Vec<Expr>, else_branch: Option<Vec<Expr>> },
    IVar { name: String },
    IVarSet { name: String, value: Box<Expr> },
    /// `print expr` — evaluates `expr`, prints, value is the printed value.
    Print(Box<Expr>),
    /// `class Name ...` — defines a class; value is the class object.
    Class {
        name: String,
        /// Generic type parameters: `[T, U]` in `class Foo[T, U]`.
        type_params: Vec<String>,
        /// Superclass expression: `Name` or `Outer.Inner`.  `None` means inherit from Object.
        superclass: Option<Box<Expr>>,
        /// When true, `abstract class` — cannot be instantiated; may declare `abstract def`.
        is_abstract: bool,
        /// When true, this is a `module` (cannot be instantiated; only mixed in).
        is_module: bool,
        /// Included mixin names in source order (`include(A)`, `include(B.Mod)`).
        includes: Vec<String>,
        fields: Vec<FieldDef>,
        methods: Vec<MethodDef>,
        /// Nested class definitions — accessible only as `Outer.Inner`.
        nested: Vec<Expr>,
        /// Class-level constants (`PI = 3.14`) — accessible as `ClassName.PI`.
        constants: Vec<(String, Box<Expr>)>,
    },
    /// `interface Name ...` — a compile-time structural method contract.
    Interface { name: String, type_params: Vec<String>, methods: Vec<MethodDef> },
    /// Top-level `def name(...)` on `Object`; value is the method name string.
    Function {
        name: String,
        /// Generic type parameters: `[T]` in `def identity[T](x: T) -> T`.
        type_params: Vec<String>,
        params: Vec<ParamDef>,
        return_type: Option<TypeExpr>,
        body: Vec<Expr>,
    },
    /// `begin ... rescue ... else ... end` and bodies with a `rescue` clause.
    Begin {
        body: Vec<Expr>,
        rescue_clauses: Vec<RescueClause>,
        else_body: Vec<Expr>,
        ensure_body: Vec<Expr>,
    },
    /// `while cond { ... }` — value is `nil` when the loop exits normally.
    While { condition: Box<Expr>, body: Vec<Expr> },
    Return(Box<Expr>),
    Break(Box<Expr>),
    Next(Box<Expr>),
    Raise(Box<Expr>),
    MultiAssign { names: Vec<String>, values: Vec<Expr> },
    /// Anonymous `def(params) { body }` — a first-class lambda value.
    Lambda { params: Vec<String>, body: Vec<Expr> },
    /// `import "./path"` — load and execute a relative file in the current scope.
    Import { path: String },
    /// `type Name = TypeExpr` — declares a type alias.
    TypeAlias { name: String, type_expr: TypeExpr },
    /// `match expr { pattern => { body } ... }` — pattern matching expression.
    Match { scrutinee: Box<Expr>, arms: Vec<MatchArm> },
}

} // verus!
