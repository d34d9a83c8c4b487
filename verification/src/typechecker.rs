//! The static type checker: type expressions, their compatibility, and a
//! pass over a parsed program that reports type errors and records the
//! return types of functions and methods.
use vstd::prelude::*;

use crate::ast::{CallArg, Expr, FieldDef, MatchArm, MethodDef, ParamDef, Pattern, TypeExpr};
use crate::text::{debug_quote, i64_to_string, int_decimal, quoted};
use crate::token::TokenKind;
use crate::value::Value;

verus! {

// ── Type expressions as mathematical values ─────────────────────────────────

/// A literal as a mathematical value.
pub enum LitView {
    Int(i64),
    Float(Seq<char>),
    Str(Seq<char>),
    Bool(bool),
    Nil,
}

/// A type expression as a mathematical value.
pub enum TyView {
    Named(Seq<char>),
    Apply(Seq<char>, Seq<TyView>),
    Literal(LitView),
    Union(Seq<TyView>),
    Any,
}

pub open spec fn lit_view(v: Value) -> LitView {
    match v {
        Value::Int(n) => LitView::Int(n),
        Value::Float(s) => LitView::Float(s@),
        Value::Str(s) => LitView::Str(s@),
        Value::Bool(b) => LitView::Bool(b),
        Value::Nil => LitView::Nil,
    }
}

/// The mathematical value of a type expression.
pub open spec fn ty(te: TypeExpr) -> TyView
    decreases te,
{
    match te {
        TypeExpr::Named(n) => TyView::Named(n@),
        TypeExpr::Apply(n, args) => TyView::Apply(n@, tys(args@)),
        TypeExpr::Literal(v) => TyView::Literal(lit_view(v)),
        TypeExpr::Union(arms) => TyView::Union(tys(arms@)),
        TypeExpr::Any => TyView::Any,
    }
}

/// The mathematical values of a sequence of type expressions.
pub open spec fn tys(s: Seq<TypeExpr>) -> Seq<TyView>
    decreases s,
{
    if s.len() == 0 {
        Seq::empty()
    } else {
        tys(s.drop_last()).push(ty(s.last()))
    }
}

/// `te` with its aliases expanded, at most `fuel` expansions deep along any
/// path; the arms of a union that are unions themselves are spliced in, and
/// a union left with one arm is that arm.
pub open spec fn resolved_ty(aliases: Seq<(String, TypeExpr)>, te: TypeExpr, fuel: nat) -> TyView
    decreases fuel, te, 1nat,
{
    match te {
        TypeExpr::Named(n) => match lookup(aliases, n@) {
            Some(t) => if fuel > 0 {
                resolved_ty(aliases, t, (fuel - 1) as nat)
            } else {
                TyView::Named(n@)
            },
            None => TyView::Named(n@),
        },
        TypeExpr::Apply(n, args) => TyView::Apply(n@, resolved_tys(aliases, args@, fuel)),
        TypeExpr::Union(arms) => {
            let flat = flatten_arms(resolved_tys(aliases, arms@, fuel));
            if flat.len() == 1 {
                flat[0]
            } else {
                TyView::Union(flat)
            }
        },
        TypeExpr::Literal(v) => TyView::Literal(lit_view(v)),
        TypeExpr::Any => TyView::Any,
    }
}

proof fn lemma_tv_push(a: &TypeChecker, b: &TypeChecker, tp: Seq<String>, t: TyView)
    requires
        b.type_vars@.len() == a.type_vars@.len() + 1,
        forall|i: int| 0 <= i < a.type_vars@.len() ==> #[trigger] b.type_vars@[i] == a.type_vars@[i],
        b.type_vars@.last()@ == tp,
        !a.names_type_var(t),
        !named_type_param(tp, t),
    ensures
        !b.names_type_var(t),
{
    if b.names_type_var(t) {
        let n = t->Named_0;
        let (i, j) = choose|i: int, j: int|
            0 <= i < b.type_vars@.len() && 0 <= j < b.type_vars@[i]@.len() && (#[trigger] b.type_vars@[i]@[j])@ == n;
        if i < a.type_vars@.len() {
            assert(a.type_vars@[i]@[j]@ == n);
        } else {
            assert(tp[j]@ == n);
        }
    }
}

/// The type of a literal: `Int`, `Float`, `String`, `Bool` or `Nil`.
pub open spec fn literal_type(v: Value) -> TyView {
    TyView::Named(
        match v {
            Value::Int(_) => "Int"@,
            Value::Float(_) => "Float"@,
            Value::Str(_) => "String"@,
            Value::Bool(_) => "Bool"@,
            Value::Nil => "Nil"@,
        },
    )
}

/// A function annotated to return `rt` whose body is literals only, the
/// last of a type that does not fit `rt` (neither is one of its type
/// parameters, `rt` is no union, and the two are not compatible), in a
/// program that defines nothing else.
pub open spec fn lone_literal_return_mismatch(e: Expr) -> bool {
    match e {
        Expr::Function { type_params, return_type: Some(rt), body, .. } => {
            &&& body@.len() > 0
            &&& forall|i: int| 0 <= i < body@.len() ==> #[trigger] body@[i] is Literal
            &&& !named_type_param(type_params@, literal_type(body@.last()->Literal_0))
            &&& !named_type_param(type_params@, ty(rt))
            &&& !(resolved_ty(Seq::empty(), rt, 0) is Union)
            &&& !compatible(literal_type(body@.last()->Literal_0), resolved_ty(Seq::empty(), rt, 0))
        },
        _ => false,
    }
}

/// The message for a return value of the function `e` that does not fit
/// its annotation.
pub open spec fn literal_return_message(e: Expr) -> Seq<char> {
    match e {
        Expr::Function { return_type: Some(rt), body, .. } => "return value expected "@ + ty_name(ty(rt)) + ", got "@
            + ty_name(literal_type(body@.last()->Literal_0)),
        _ => Seq::empty(),
    }
}

proof fn lemma_same_keys<A, B>(a: Seq<(String, A)>, b: Seq<(String, B)>)
    requires
        a.len() == b.len(),
        forall|i: int| 0 <= i < a.len() ==> (#[trigger] a[i]).0 == b[i].0,
    ensures
        forall|x: Seq<char>| #[trigger] key_index(a, x) == key_index(b, x),
    decreases a.len(),
{
    if a.len() > 0 {
        assert forall|i: int| 0 <= i < a.len() - 1 implies (#[trigger] a.drop_last()[i]).0 == b.drop_last()[i].0 by {
            assert(a.drop_last()[i] == a[i]);
            assert(b.drop_last()[i] == b[i]);
        }
        lemma_same_keys(a.drop_last(), b.drop_last());
        assert(a.last().0 == b.last().0);
        assert forall|x: Seq<char>| #[trigger] key_index(a, x) == key_index(b, x) by {
            assert(key_index(a.drop_last(), x) == key_index(b.drop_last(), x));
            assert(a.last().0@ == b.last().0@);
        }
    } else {
        assert forall|x: Seq<char>| #[trigger] key_index(a, x) == key_index(b, x) by {}
    }
}

/// A function definition whose body is literals only, annotated with a
/// return type or with at least one literal to infer it from.
pub open spec fn lone_literal_fn(e: Expr) -> bool {
    e matches Expr::Function { return_type, body, .. } && (forall|i: int| 0 <= i < body@.len() ==> #[trigger] body@[i] is Literal)
        && (return_type is Some || body@.len() > 0)
}

/// `e` defines a function whose return type is known in `fs`.
spec fn fn_known(fs: Seq<(String, FnSig)>, e: Expr) -> bool {
    e matches Expr::Function { name, .. } && (lookup(fs, name@) matches Some(f) && f.return_type is Some)
}

/// The return type of such a function: its annotation, else the type of its
/// last literal.
pub open spec fn literal_fn_return(e: Expr) -> TyView {
    match e {
        Expr::Function { return_type: Some(rt), .. } => ty(rt),
        Expr::Function { body, .. } => literal_type(body@.last()->Literal_0),
        _ => TyView::Any,
    }
}

/// The recorded types give the function `e` that return type.
pub open spec fn annotation_in_types(types: CheckedTypes, e: Expr) -> bool {
    lone_literal_fn(e) ==> (lookup(types.functions(), e->Function_name@) matches Some(x) && opt_ty(x) == Some(
        literal_fn_return(e),
    ))
}

/// Some error carries the message `m`.
pub open spec fn errors_hold(errors: Seq<TypeCheckError>, m: Seq<char>) -> bool {
    exists|k: int| 0 <= k < errors.len() && (#[trigger] errors[k]).message@ == m
}

/// Errors kept in a longer list still hold.
pub proof fn lemma_errors_hold_kept(a: Seq<TypeCheckError>, b: Seq<TypeCheckError>, m: Seq<char>)
    requires
        keeps_errors(a, b),
        errors_hold(a, m),
    ensures
        errors_hold(b, m),
{
    let k = choose|k: int| 0 <= k < a.len() && (#[trigger] a[k]).message@ == m;
    assert(b[k] == a[k]);
}

/// The report of an argument whose type does not fit its parameter's.
pub open spec fn arg_mismatch_message(param: Seq<char>, f: Seq<char>, expected: TyView, got: TyView) -> Seq<char> {
    "argument '"@ + param + "' to '"@ + f + "' expected "@ + ty_name(expected) + ", got "@ + ty_name(got)
}

/// In a checker that knows no aliases, classes or type variables, a lone
/// function with a mismatched literal return owes its report.
proof fn lemma_lone_mismatch_owed(tc: &TypeChecker, e: Expr)
    requires
        lone_literal_return_mismatch(e),
        tc.type_aliases@.len() == 0,
        tc.classes@.len() == 0,
        tc.type_vars@.len() == 0,
    ensures
        match e {
            Expr::Function { type_params, return_type: Some(rt), body, .. } => {
                &&& tc.direct_type(body@.last()) == Some(Some(literal_type(body@.last()->Literal_0)))
                &&& tc.fn_return_mismatch_owed(type_params@, literal_type(body@.last()->Literal_0), rt)
                &&& literal_return_message(e) == "return value expected "@ + ty_name(ty(rt)) + ", got "@ + ty_name(
                    literal_type(body@.last()->Literal_0),
                )
            },
            _ => false,
        },
{
    assert(tc.type_aliases@ =~= Seq::<(String, TypeExpr)>::empty());
    assert(tc.classes@ =~= Seq::<(String, ClassInfo)>::empty());
    if let Expr::Function { type_params, return_type: Some(rt), body, .. } = e {
        let at = literal_type(body@.last()->Literal_0);
        assert(body@.last() is Literal);
        assert(lookup(tc.classes@, at->Named_0) is None);
        assert(lookup(tc.type_aliases@, at->Named_0) is None);
    }
}

/// An expression of literals, grouping, the arithmetic, comparison and
/// logical operators, and `!`, `~` and unary `-`.
pub open spec fn arith_expr(e: Expr) -> bool
    decreases e,
{
    match e {
        Expr::Literal(_) => true,
        Expr::Grouping(inner) => arith_expr(*inner),
        Expr::Unary { op, right } => (op.kind is Bang || op.kind is Tilde || op.kind is Minus) && arith_expr(*right),
        Expr::Binary { left, op, right } => (arith_op(op.kind) || compare_op(op.kind)) && arith_expr(*left) && arith_expr(*right),
        _ => false,
    }
}

/// `+`, `-`, `*`, `/` and `%`.
pub open spec fn arith_op(k: TokenKind) -> bool {
    k is Plus || k is Minus || k is Star || k is Slash || k is Percent
}

/// The comparisons and the logical operators, whose value is a `Bool`.
pub open spec fn compare_op(k: TokenKind) -> bool {
    k is EqEq || k is BangEq || k is Less || k is LessEq || k is Greater || k is GreaterEq || k is AmpAmp || k is PipePipe
}

/// The type the checker gives such an expression: literals their own;
/// `String + String` is a `String`; arithmetic with a `Float` operand a
/// `Float`, on two `Int`s an `Int`; comparisons and `!` a `Bool`; `~` an
/// `Int`; `-` keeps an `Int` or `Float`; anything else has no known type.
pub open spec fn arith_type(e: Expr) -> Option<TyView>
    decreases e,
{
    match e {
        Expr::Literal(v) => Some(literal_type(v)),
        Expr::Grouping(inner) => arith_type(*inner),
        Expr::Unary { op, right } => if op.kind is Bang {
            Some(TyView::Named("Bool"@))
        } else if op.kind is Tilde {
            Some(TyView::Named("Int"@))
        } else {
            match arith_type(*right) {
                Some(TyView::Named(n)) => if n == "Int"@ || n == "Float"@ {
                    Some(TyView::Named(n))
                } else {
                    None
                },
                _ => None,
            }
        },
        Expr::Binary { left, op, right } => if compare_op(op.kind) {
            Some(TyView::Named("Bool"@))
        } else {
            match (arith_type(*left), arith_type(*right)) {
                (Some(TyView::Named(a)), Some(TyView::Named(b))) => if op.kind is Plus && a == "String"@ && b == "String"@ {
                    Some(TyView::Named("String"@))
                } else if a == "Float"@ || b == "Float"@ {
                    Some(TyView::Named("Float"@))
                } else if a == "Int"@ && b == "Int"@ {
                    Some(TyView::Named("Int"@))
                } else {
                    None
                },
                _ => None,
            }
        },
        _ => None,
    }
}

/// `t` is a name among `params`.
pub open spec fn named_type_param(params: Seq<String>, t: TyView) -> bool {
    t matches TyView::Named(n) && exists|j: int| 0 <= j < params.len() && (#[trigger] params[j])@ == n
}

/// `resolved_ty` of a type named `n`.
pub open spec fn resolved_named(aliases: Seq<(String, TypeExpr)>, n: Seq<char>, fuel: nat) -> TyView {
    match lookup(aliases, n) {
        Some(t) => if fuel > 0 {
            resolved_ty(aliases, t, (fuel - 1) as nat)
        } else {
            TyView::Named(n)
        },
        None => TyView::Named(n),
    }
}

/// `resolved_ty` of each element.
pub open spec fn resolved_tys(aliases: Seq<(String, TypeExpr)>, s: Seq<TypeExpr>, fuel: nat) -> Seq<TyView>
    decreases fuel, s, 0nat,
{
    if s.len() == 0 {
        Seq::empty()
    } else {
        resolved_tys(aliases, s.drop_last(), fuel).push(resolved_ty(aliases, s.last(), fuel))
    }
}

/// The arms in order, each union among them replaced by its own arms.
pub open spec fn flatten_arms(s: Seq<TyView>) -> Seq<TyView>
    decreases s.len(),
{
    if s.len() == 0 {
        Seq::empty()
    } else {
        flatten_arms(s.drop_last()) + match s.last() {
            TyView::Union(inner) => inner,
            other => seq![other],
        }
    }
}

/// Alias expansion depends on a type's view alone.
pub proof fn lemma_resolved_same(aliases: Seq<(String, TypeExpr)>, x: TypeExpr, y: TypeExpr, fuel: nat)
    requires
        ty(x) == ty(y),
    ensures
        resolved_ty(aliases, x, fuel) == resolved_ty(aliases, y, fuel),
    decreases x, 1nat,
{
    match (x, y) {
        (TypeExpr::Apply(_, xs), TypeExpr::Apply(_, ys)) => {
            lemma_tys(xs@);
            lemma_tys(ys@);
            lemma_elems_decrease(x, xs);
            lemma_resolved_tys_same(aliases, xs@, ys@, fuel, x);
        },
        (TypeExpr::Union(xs), TypeExpr::Union(ys)) => {
            lemma_tys(xs@);
            lemma_tys(ys@);
            lemma_elems_decrease(x, xs);
            lemma_resolved_tys_same(aliases, xs@, ys@, fuel, x);
        },
        _ => {},
    }
}

proof fn lemma_resolved_tys_same(aliases: Seq<(String, TypeExpr)>, xs: Seq<TypeExpr>, ys: Seq<TypeExpr>, fuel: nat, parent: TypeExpr)
    requires
        tys(xs) == tys(ys),
        forall|i: int| 0 <= i < xs.len() ==> decreases_to!(parent => #[trigger] xs[i]),
    ensures
        resolved_tys(aliases, xs, fuel) == resolved_tys(aliases, ys, fuel),
    decreases parent, 0nat, xs.len(),
{
    lemma_tys(xs);
    lemma_tys(ys);
    assert(xs.len() == ys.len());
    assert forall|i: int| 0 <= i < xs.len() implies ty(#[trigger] xs[i]) == ty(ys[i]) by {
        assert(tys(xs)[i] == ty(xs[i]));
        assert(tys(ys)[i] == ty(ys[i]));
        assert(tys(xs)[i] == tys(ys)[i]);
    }
    if xs.len() > 0 {
        assert(tys(xs.drop_last()) == tys(ys.drop_last())) by {
            lemma_tys(xs.drop_last());
            lemma_tys(ys.drop_last());
            assert forall|i: int| 0 <= i < xs.len() - 1 implies tys(xs.drop_last())[i] == tys(ys.drop_last())[i] by {
                assert(xs.drop_last()[i] == xs[i]);
                assert(ys.drop_last()[i] == ys[i]);
            }
            assert(tys(xs.drop_last()) =~= tys(ys.drop_last()));
        }
        lemma_resolved_tys_same(aliases, xs.drop_last(), ys.drop_last(), fuel, parent);
        assert(ty(xs[xs.len() - 1]) == ty(ys[ys.len() - 1]));
        lemma_resolved_same(aliases, xs.last(), ys.last(), fuel);
    }
}

pub proof fn lemma_resolved_tys(aliases: Seq<(String, TypeExpr)>, s: Seq<TypeExpr>, fuel: nat, r: Seq<TypeExpr>)
    requires
        r.len() == s.len(),
        forall|i: int| 0 <= i < s.len() ==> ty(#[trigger] r[i]) == resolved_ty(aliases, s[i], fuel),
    ensures
        tys(r) == resolved_tys(aliases, s, fuel),
    decreases s.len(),
{
    if s.len() > 0 {
        assert forall|i: int| 0 <= i < s.len() - 1 implies ty(#[trigger] r.drop_last()[i]) == resolved_ty(aliases, s.drop_last()[i], fuel) by {
            assert(r.drop_last()[i] == r[i]);
            assert(s.drop_last()[i] == s[i]);
        }
        lemma_resolved_tys(aliases, s.drop_last(), fuel, r.drop_last());
        assert(ty(r[r.len() - 1]) == resolved_ty(aliases, s[s.len() - 1], fuel));
    }
}

pub proof fn lemma_tys_concat(a: Seq<TypeExpr>, b: Seq<TypeExpr>)
    ensures
        tys(a + b) == tys(a) + tys(b),
{
    lemma_tys(a);
    lemma_tys(b);
    lemma_tys(a + b);
    assert(tys(a + b) =~= tys(a) + tys(b));
}

/// The flattening of the arms into `flat` while popping them, one by one,
/// off the reversed list `rev`.
pub proof fn lemma_flatten_step(r0: Seq<TypeExpr>, m: int, flat: Seq<TypeExpr>, arm: TypeExpr, flat2: Seq<TypeExpr>)
    requires
        0 <= m < r0.len(),
        tys(flat) == flatten_arms(tys(r0).take(m)),
        arm == r0[m],
        match arm {
            TypeExpr::Union(inner) => flat2 == flat + inner@,
            _ => flat2 == flat.push(arm),
        },
    ensures
        tys(flat2) == flatten_arms(tys(r0).take(m + 1)),
{
    lemma_tys(r0);
    let t = tys(r0).take(m + 1);
    assert(t.drop_last() =~= tys(r0).take(m));
    assert(t.last() == ty(r0[m]));
    match arm {
        TypeExpr::Union(inner) => {
            lemma_tys_concat(flat, inner@);
        },
        _ => {
            assert(flat.push(arm).drop_last() =~= flat);
            assert(tys(flat.push(arm)) =~= tys(flat) + seq![ty(arm)]);
        },
    }
}

pub proof fn lemma_tys(s: Seq<TypeExpr>)
    ensures
        tys(s).len() == s.len(),
        forall|i: int| 0 <= i < s.len() ==> #[trigger] tys(s)[i] == ty(s[i]),
    decreases s.len(),
{
    if s.len() > 0 {
        lemma_tys(s.drop_last());
        assert forall|i: int| 0 <= i < s.len() implies #[trigger] tys(s)[i] == ty(s[i]) by {
            if i < s.len() - 1 {
                assert(s.drop_last()[i] == s[i]);
            }
        }
    }
}

/// The sequences have the same length and the same views, index by index.
pub open spec fn same_tys(a: Seq<TypeExpr>, b: Seq<TyView>) -> bool {
    a.len() == b.len() && forall|i: int| 0 <= i < a.len() ==> ty(#[trigger] a[i]) == b[i]
}

pub proof fn lemma_same_tys(a: Seq<TypeExpr>, b: Seq<TyView>)
    requires
        same_tys(a, b),
    ensures
        tys(a) == b,
{
    lemma_tys(a);
    assert(tys(a) =~= b);
}

fn copy_types(v: &Vec<TypeExpr>, Ghost(parent): Ghost<TypeExpr>) -> (r: Vec<TypeExpr>)
    requires
        forall|i: int| 0 <= i < v@.len() ==> decreases_to!(parent => #[trigger] v@[i]),
    ensures
        tys(r@) == tys(v@),
    decreases parent, 0nat,
{
    let mut r: Vec<TypeExpr> = Vec::new();
    let mut i: usize = 0;
    while i < v.len()
        invariant
            i <= v@.len(),
            forall|k: int| 0 <= k < v@.len() ==> decreases_to!(parent => #[trigger] v@[k]),
            r@.len() == i,
            forall|k: int| 0 <= k < i ==> ty(#[trigger] r@[k]) == ty(v@[k]),
        decreases v@.len() - i,
    {
        assert(decreases_to!(parent => v@[i as int]));
        r.push(copy_type(&v[i]));
        i += 1;
    }
    proof {
        lemma_tys(v@);
        assert(same_tys(r@, tys(v@)));
        lemma_same_tys(r@, tys(v@));
    }
    r
}

/// A copy of a type expression.
pub fn copy_type(te: &TypeExpr) -> (r: TypeExpr)
    ensures
        ty(r) == ty(*te),
    decreases *te, 1nat,
{
    match te {
        TypeExpr::Named(n) => TypeExpr::Named(n.clone()),
        TypeExpr::Apply(n, args) => {
            proof {
                assert forall|i: int| 0 <= i < args@.len() implies decreases_to!(*te => #[trigger] args@[i]) by {
                    assert(decreases_to!(*te => *args));
                    assert(decreases_to!(*args => args@));
                    assert(decreases_to!(args@ => args@[i]));
                }
            }
            TypeExpr::Apply(n.clone(), copy_types(args, Ghost(*te)))
        },
        TypeExpr::Literal(v) => TypeExpr::Literal(v.copy()),
        TypeExpr::Union(arms) => {
            proof {
                assert forall|i: int| 0 <= i < arms@.len() implies decreases_to!(*te => #[trigger] arms@[i]) by {
                    assert(decreases_to!(*te => *arms));
                    assert(decreases_to!(*arms => arms@));
                    assert(decreases_to!(arms@ => arms@[i]));
                }
            }
            TypeExpr::Union(copy_types(arms, Ghost(*te)))
        },
        TypeExpr::Any => TypeExpr::Any,
    }
}

pub fn copy_opt_type(te: &Option<TypeExpr>) -> (r: Option<TypeExpr>)
    ensures
        opt_ty(r) == opt_ty(*te),
{
    match te {
        Some(t) => Some(copy_type(t)),
        None => None,
    }
}

pub open spec fn opt_ty(te: Option<TypeExpr>) -> Option<TyView> {
    match te {
        Some(t) => Some(ty(t)),
        None => None,
    }
}

// ── Compatibility ───────────────────────────────────────────────────────────

/// The named type of a literal's values.
pub open spec fn literal_base(v: LitView) -> Seq<char> {
    match v {
        LitView::Int(_) => "Int"@,
        LitView::Float(_) => "Float"@,
        LitView::Str(_) => "String"@,
        LitView::Bool(_) => "Bool"@,
        LitView::Nil => "Nil"@,
    }
}

/// Whether two names are compatible: equal, or `Int`/`Float` against `Num`.
pub open spec fn names_compatible(a: Seq<char>, e: Seq<char>) -> bool {
    a == e || (e == "Num"@ && (a == "Int"@ || a == "Float"@))
}

/// Structural compatibility of an actual type with an expected type: `Any`
/// on either side fits; applications match by name and argument; a bare name
/// fits an application of the same name either way; every arm of an actual
/// union must fit; some arm of an expected union must fit; a literal fits an
/// equal literal and the named type of its values; `Int` and `Float` fit
/// `Num`.
pub open spec fn compatible(a: TyView, e: TyView) -> bool
    decreases a, e,
{
    if e is Any || a is Any {
        true
    } else if a is Apply && e is Apply {
        a->Apply_0 == e->Apply_0 && a->Apply_1.len() == e->Apply_1.len() && forall|i: int|
            0 <= i < a->Apply_1.len() ==> compatible(
                #[trigger] a->Apply_1[i],
                e->Apply_1[i],
            )
    } else if a is Named && e is Apply {
        a->Named_0 == e->Apply_0
    } else if a is Apply && e is Named {
        a->Apply_0 == e->Named_0
    } else if a is Union {
        forall|i: int| 0 <= i < a->Union_0.len() ==> compatible(#[trigger] a->Union_0[i], e)
    } else if e is Union {
        exists|i: int| 0 <= i < e->Union_0.len() && compatible(a, #[trigger] e->Union_0[i])
    } else {
        match (a, e) {
            (TyView::Literal(x), TyView::Literal(y)) => x == y,
            (TyView::Literal(x), TyView::Named(en)) => names_compatible(literal_base(x), en),
            (TyView::Named(an), TyView::Named(en)) => names_compatible(an, en),
            _ => false,
        }
    }
}

/// A type compatible with one arm of a union is compatible with the union.
pub proof fn lemma_compatible_in_union(y: TyView, arms: Seq<TyView>, i: int)
    requires
        0 <= i < arms.len(),
        compatible(y, arms[i]),
    ensures
        compatible(y, TyView::Union(arms)),
    decreases y,
{
    match y {
        TyView::Union(inner) => {
            assert forall|j: int| 0 <= j < inner.len() implies compatible(#[trigger] inner[j], TyView::Union(arms)) by {
                assert(compatible(inner[j], arms[i]));
                lemma_compatible_in_union(inner[j], arms, i);
            }
            assert(compatible(y, TyView::Union(arms)));
        },
        _ => {
            let e = TyView::Union(arms);
            assert(e->Union_0 == arms);
            assert(compatible(y, e->Union_0[i]));
        },
    }
}

/// Every type is compatible with itself.
pub proof fn lemma_compatible_reflexive(t: TyView)
    ensures
        compatible(t, t),
    decreases t,
{
    match t {
        TyView::Apply(n, args) => {
            assert forall|i: int| 0 <= i < args.len() implies compatible(#[trigger] args[i], args[i]) by {
                lemma_compatible_reflexive(args[i]);
            }
        },
        TyView::Union(arms) => {
            assert forall|i: int| 0 <= i < arms.len() implies compatible(#[trigger] arms[i], t) by {
                lemma_compatible_reflexive(arms[i]);
                lemma_compatible_in_union(arms[i], arms, i);
            }
        },
        _ => {},
    }
}

/// `Any` accepts every type and is accepted by every type.
pub proof fn lemma_compatible_any(t: TyView)
    ensures
        compatible(t, TyView::Any),
        compatible(TyView::Any, t),
{
}


/// Whether `s` holds the characters of `lit`.
pub fn str_is(s: &String, lit: &str) -> (r: bool)
    ensures
        r == (s@ == lit@),
{
    *s == String::from_str(lit)
}

pub proof fn lemma_elems_decrease(te: TypeExpr, v: Vec<TypeExpr>)
    requires
        (te matches TypeExpr::Apply(_, a) && a == v) || (te matches TypeExpr::Union(a) && a == v),
    ensures
        forall|i: int| 0 <= i < v@.len() ==> decreases_to!(te => #[trigger] v@[i]),
{
    assert forall|i: int| 0 <= i < v@.len() implies decreases_to!(te => #[trigger] v@[i]) by {
        match te {
            TypeExpr::Apply(_, a) => {
                assert(decreases_to!(te => a));
            },
            TypeExpr::Union(a) => {
                assert(decreases_to!(te => a));
            },
            _ => {},
        }
        assert(decreases_to!(v => v@));
        assert(decreases_to!(v@ => v@[i]));
    }
}

fn all_compatible_with(arms: &Vec<TypeExpr>, expected: &TypeExpr, Ghost(parent): Ghost<TypeExpr>) -> (r: bool)
    requires
        forall|i: int| 0 <= i < arms@.len() ==> decreases_to!(parent => #[trigger] arms@[i]),
    ensures
        r == forall|i: int| 0 <= i < arms@.len() ==> compatible(#[trigger] tys(arms@)[i], ty(*expected)),
    decreases parent, *expected, 0nat,
{
    proof {
        lemma_tys(arms@);
    }
    let mut i: usize = 0;
    while i < arms.len()
        invariant
            i <= arms@.len(),
            tys(arms@).len() == arms@.len(),
            forall|k: int| 0 <= k < arms@.len() ==> #[trigger] tys(arms@)[k] == ty(arms@[k]),
            forall|k: int| 0 <= k < arms@.len() ==> decreases_to!(parent => #[trigger] arms@[k]),
            forall|k: int| 0 <= k < i ==> compatible(#[trigger] tys(arms@)[k], ty(*expected)),
        decreases arms@.len() - i,
    {
        assert(decreases_to!(parent => arms@[i as int]));
        if !types_compatible(&arms[i], expected) {
            assert(!compatible(tys(arms@)[i as int], ty(*expected)));
            return false;
        }
        i += 1;
    }
    true
}

fn any_compatible_with(actual: &TypeExpr, arms: &Vec<TypeExpr>, Ghost(parent): Ghost<TypeExpr>) -> (r: bool)
    requires
        forall|i: int| 0 <= i < arms@.len() ==> decreases_to!(parent => #[trigger] arms@[i]),
    ensures
        r == exists|i: int| 0 <= i < arms@.len() && compatible(ty(*actual), #[trigger] tys(arms@)[i]),
    decreases *actual, parent, 0nat,
{
    proof {
        lemma_tys(arms@);
    }
    let mut i: usize = 0;
    while i < arms.len()
        invariant
            i <= arms@.len(),
            tys(arms@).len() == arms@.len(),
            forall|k: int| 0 <= k < arms@.len() ==> #[trigger] tys(arms@)[k] == ty(arms@[k]),
            forall|k: int| 0 <= k < arms@.len() ==> decreases_to!(parent => #[trigger] arms@[k]),
            forall|k: int| 0 <= k < i ==> !compatible(ty(*actual), #[trigger] tys(arms@)[k]),
        decreases arms@.len() - i,
    {
        assert(decreases_to!(parent => arms@[i as int]));
        if types_compatible(actual, &arms[i]) {
            assert(compatible(ty(*actual), tys(arms@)[i as int]));
            return true;
        }
        i += 1;
    }
    false
}

fn pairwise_compatible(
    aa: &Vec<TypeExpr>,
    ea: &Vec<TypeExpr>,
    Ghost(parent): Ghost<TypeExpr>,
    Ghost(other): Ghost<TypeExpr>,
) -> (r: bool)
    requires
        aa@.len() == ea@.len(),
        forall|i: int| 0 <= i < aa@.len() ==> decreases_to!(parent => #[trigger] aa@[i]),
    ensures
        r == forall|i: int| 0 <= i < aa@.len() ==> compatible(#[trigger] tys(aa@)[i], tys(ea@)[i]),
    decreases parent, other, 0nat,
{
    proof {
        lemma_tys(aa@);
        lemma_tys(ea@);
    }
    let mut i: usize = 0;
    while i < aa.len()
        invariant
            i <= aa@.len(),
            aa@.len() == ea@.len(),
            tys(aa@).len() == aa@.len(),
            tys(ea@).len() == ea@.len(),
            forall|k: int| 0 <= k < aa@.len() ==> #[trigger] tys(aa@)[k] == ty(aa@[k]),
            forall|k: int| 0 <= k < ea@.len() ==> #[trigger] tys(ea@)[k] == ty(ea@[k]),
            forall|k: int| 0 <= k < aa@.len() ==> decreases_to!(parent => #[trigger] aa@[k]),
            forall|k: int| 0 <= k < i ==> compatible(#[trigger] tys(aa@)[k], tys(ea@)[k]),
        decreases aa@.len() - i,
    {
        assert(decreases_to!(parent => aa@[i as int]));
        if !types_compatible(&aa[i], &ea[i]) {
            assert(!compatible(tys(aa@)[i as int], tys(ea@)[i as int]));
            return false;
        }
        i += 1;
    }
    true
}

/// The name of the type of a literal's values.
fn literal_base_name(v: &Value) -> (r: String)
    ensures
        r@ == literal_base(lit_view(*v)),
{
    match v {
        Value::Int(_) => String::from_str("Int"),
        Value::Float(_) => String::from_str("Float"),
        Value::Str(_) => String::from_str("String"),
        Value::Bool(_) => String::from_str("Bool"),
        Value::Nil => String::from_str("Nil"),
    }
}

fn names_compat(a: &String, e: &String) -> (r: bool)
    ensures
        r == names_compatible(a@, e@),
{
    *a == *e || (str_is(e, "Num") && (str_is(a, "Int") || str_is(a, "Float")))
}

/// Whether `actual` is compatible with `expected` (see `compatible`).
pub fn types_compatible(actual: &TypeExpr, expected: &TypeExpr) -> (r: bool)
    ensures
        r == compatible(ty(*actual), ty(*expected)),
    decreases *actual, *expected, 1nat,
{
    let ghost a = ty(*actual);
    let ghost e = ty(*expected);
    if let TypeExpr::Any = expected {
        return true;
    }
    if let TypeExpr::Any = actual {
        return true;
    }
    assert(!(a is Any) && !(e is Any));
    match (actual, expected) {
        (TypeExpr::Apply(an, aa), TypeExpr::Apply(en, ea)) => {
            proof {
                lemma_tys(aa@);
                lemma_tys(ea@);
                assert(a->Apply_1 == tys(aa@));
                assert(e->Apply_1 == tys(ea@));
            }
            if *an != *en || aa.len() != ea.len() {
                return false;
            }
            proof {
                lemma_elems_decrease(*actual, *aa);
            }
            let r = pairwise_compatible(aa, ea, Ghost(*actual), Ghost(*expected));
            assert(r == compatible(a, e));
            return r;
        },
        (TypeExpr::Named(x), TypeExpr::Apply(y, _)) => {
            return *x == *y;
        },
        (TypeExpr::Apply(x, _), TypeExpr::Named(y)) => {
            return *x == *y;
        },
        _ => {},
    }
    assert(!(a is Apply && e is Apply) && !(a is Named && e is Apply) && !(a is Apply && e is Named));
    if let TypeExpr::Union(arms) = actual {
        proof {
            lemma_elems_decrease(*actual, *arms);
            lemma_tys(arms@);
            assert(a->Union_0 == tys(arms@));
        }
        let r = all_compatible_with(arms, expected, Ghost(*actual));
        assert(r == compatible(a, e));
        return r;
    }
    if let TypeExpr::Union(arms) = expected {
        proof {
            lemma_elems_decrease(*expected, *arms);
            lemma_tys(arms@);
            assert(e->Union_0 == tys(arms@));
        }
        let r = any_compatible_with(actual, arms, Ghost(*expected));
        assert(r == compatible(a, e));
        return r;
    }
    match (actual, expected) {
        (TypeExpr::Literal(x), TypeExpr::Literal(y)) => {
            let r = crate::value::values_same(x, y);
            assert(r == (lit_view(*x) == lit_view(*y)));
            r
        },
        (TypeExpr::Literal(x), TypeExpr::Named(y)) => {
            let base = literal_base_name(x);
            names_compat(&base, y)
        },
        (TypeExpr::Named(x), TypeExpr::Named(y)) => names_compat(x, y),
        _ => false,
    }
}


// ── Naming types ────────────────────────────────────────────────────────────

/// How a literal type is written: integers in decimal, floats as written,
/// strings quoted, `true`, `false`, `Nil`.
pub open spec fn lit_name(v: LitView) -> Seq<char> {
    match v {
        LitView::Int(n) => int_decimal(n as int),
        LitView::Float(text) => text,
        LitView::Str(s) => quoted(s),
        LitView::Bool(b) => if b {
            "true"@
        } else {
            "false"@
        },
        LitView::Nil => "Nil"@,
    }
}

/// How a type is written in messages: `Name`, `Name[A, B]`, literals, `Any`,
/// and unions as `A | B`.
pub open spec fn ty_name(t: TyView) -> Seq<char>
    decreases t, 1nat,
{
    match t {
        TyView::Named(n) => n,
        TyView::Apply(n, args) => n + "["@ + join_names(args, ", "@) + "]"@,
        TyView::Literal(v) => lit_name(v),
        TyView::Union(arms) => join_names(arms, " | "@),
        TyView::Any => "Any"@,
    }
}

/// The names of `s`, separated by `sep`.
pub open spec fn join_names(s: Seq<TyView>, sep: Seq<char>) -> Seq<char>
    decreases s, 0nat,
{
    if s.len() == 0 {
        Seq::empty()
    } else if s.len() == 1 {
        ty_name(s[0])
    } else {
        join_names(s.drop_last(), sep) + sep + ty_name(s.last())
    }
}

fn lit_to_name(v: &Value) -> (r: String)
    ensures
        r@ == lit_name(lit_view(*v)),
{
    match v {
        Value::Int(n) => i64_to_string(*n),
        Value::Float(text) => text.clone(),
        Value::Str(s) => debug_quote(s.as_str()),
        Value::Bool(b) => if *b {
            String::from_str("true")
        } else {
            String::from_str("false")
        },
        Value::Nil => String::from_str("Nil"),
    }
}

fn join_type_names(v: &Vec<TypeExpr>, sep: &str, Ghost(parent): Ghost<TypeExpr>) -> (r: String)
    requires
        forall|i: int| 0 <= i < v@.len() ==> decreases_to!(parent => #[trigger] v@[i]),
    ensures
        r@ == join_names(tys(v@), sep@),
    decreases parent, 0nat,
{
    proof {
        lemma_tys(v@);
    }
    let mut out = String::new();
    let mut i: usize = 0;
    proof {
        assert(tys(v@).take(0) =~= Seq::<TyView>::empty());
    }
    while i < v.len()
        invariant
            i <= v@.len(),
            tys(v@).len() == v@.len(),
            forall|k: int| 0 <= k < v@.len() ==> #[trigger] tys(v@)[k] == ty(v@[k]),
            forall|k: int| 0 <= k < v@.len() ==> decreases_to!(parent => #[trigger] v@[k]),
            out@ == join_names(tys(v@).take(i as int), sep@),
        decreases v@.len() - i,
    {
        assert(decreases_to!(parent => v@[i as int]));
        let name = te_name(&v[i]);
        let ghost pre = tys(v@).take(i as int);
        let ghost nxt = tys(v@).take(i + 1);
        assert(nxt.drop_last() =~= pre);
        assert(nxt.last() == ty(v@[i as int]));
        if i > 0 {
            out.append(sep);
        }
        out.append(name.as_str());
        proof {
            if i == 0 {
                assert(nxt.len() == 1);
                assert(out@ =~= join_names(nxt, sep@));
            } else {
                assert(out@ =~= join_names(nxt, sep@));
            }
        }
        i += 1;
    }
    assert(tys(v@).take(v@.len() as int) =~= tys(v@));
    out
}

/// How `te` is written in messages (see `ty_name`).
pub fn te_name(te: &TypeExpr) -> (r: String)
    ensures
        r@ == ty_name(ty(*te)),
    decreases *te, 1nat,
{
    match te {
        TypeExpr::Named(n) => n.clone(),
        TypeExpr::Apply(n, args) => {
            proof {
                lemma_elems_decrease(*te, *args);
            }
            let inner = join_type_names(args, ", ", Ghost(*te));
            let mut out = n.clone();
            out.append("[");
            out.append(inner.as_str());
            out.append("]");
            out
        },
        TypeExpr::Literal(v) => lit_to_name(v),
        TypeExpr::Union(arms) => {
            proof {
                lemma_elems_decrease(*te, *arms);
            }
            join_type_names(arms, " | ", Ghost(*te))
        },
        TypeExpr::Any => String::from_str("Any"),
    }
}

// ── Duplicate arms in a union ───────────────────────────────────────────────

/// The first index whose name already occurred earlier in `names`.
pub open spec fn first_repeat(names: Seq<Seq<char>>) -> Option<int>
    decreases names.len(),
{
    if names.len() == 0 {
        None
    } else {
        match first_repeat(names.drop_last()) {
            Some(j) => Some(j),
            None => if names.drop_last().contains(names.last()) {
                Some(names.len() - 1)
            } else {
                None
            },
        }
    }
}

/// The names of the arms of a union.
pub open spec fn arm_names(arms: Seq<TyView>) -> Seq<Seq<char>> {
    arms.map_values(|t: TyView| ty_name(t))
}

/// The message for a union whose arms repeat a name: the first repeated name,
/// in source order.
pub open spec fn union_duplicate(t: TyView) -> Option<Seq<char>> {
    match t {
        TyView::Union(arms) => match first_repeat(arm_names(arms)) {
            Some(j) => Some("duplicate type '"@ + arm_names(arms)[j] + "' in union"@),
            None => None,
        },
        _ => None,
    }
}

proof fn lemma_first_repeat_prefix(names: Seq<Seq<char>>, i: int)
    requires
        0 <= i < names.len(),
        first_repeat(names.take(i)) is None,
        !names.take(i).contains(names[i]),
    ensures
        first_repeat(names.take(i + 1)) is None,
{
    assert(names.take(i + 1).drop_last() =~= names.take(i));
}

proof fn lemma_first_repeat_found(names: Seq<Seq<char>>, i: int)
    requires
        0 <= i < names.len(),
        first_repeat(names.take(i)) is None,
        names.take(i).contains(names[i]),
    ensures
        first_repeat(names) == Some(i),
    decreases names.len(),
{
    if names.len() == i + 1 {
        assert(names.drop_last() =~= names.take(i));
    } else {
        assert(names.drop_last().take(i) =~= names.take(i));
        assert(names.drop_last()[i] == names[i]);
        lemma_first_repeat_found(names.drop_last(), i);
    }
}

proof fn lemma_no_repeat(names: Seq<Seq<char>>)
    requires
        first_repeat(names.take(names.len() as int)) is None,
    ensures
        first_repeat(names) is None,
{
    assert(names.take(names.len() as int) =~= names);
}

fn contains_string(v: &Vec<String>, x: &String) -> (r: bool)
    ensures
        r == v@.map_values(|s: String| s@).contains(x@),
{
    let ghost vs = v@.map_values(|s: String| s@);
    let mut i: usize = 0;
    while i < v.len()
        invariant
            i <= v@.len(),
            vs == v@.map_values(|s: String| s@),
            forall|k: int| 0 <= k < i ==> vs[k] != x@,
        decreases v@.len() - i,
    {
        if v[i] == *x {
            assert(vs[i as int] == x@);
            return true;
        }
        i += 1;
    }
    false
}

/// The error for a union type that names the same arm twice, if any.
pub fn check_union_duplicates(te: &TypeExpr) -> (r: Option<String>)
    ensures
        match r {
            Some(m) => union_duplicate(ty(*te)) == Some(m@),
            None => union_duplicate(ty(*te)) is None,
        },
{
    if let TypeExpr::Union(arms) = te {
        let ghost names = arm_names(tys(arms@));
        proof {
            lemma_tys(arms@);
            assert(ty(*te)->Union_0 == tys(arms@));
            assert(ty(*te) == TyView::Union(tys(arms@)));
        }
        let mut seen: Vec<String> = Vec::new();
        let mut i: usize = 0;
        proof {
            assert(names.take(0) =~= Seq::<Seq<char>>::empty());
        }
        while i < arms.len()
            invariant
                i <= arms@.len(),
                names == arm_names(tys(arms@)),
                ty(*te) == TyView::Union(tys(arms@)),
                names.len() == arms@.len(),
                tys(arms@).len() == arms@.len(),
                forall|k: int| 0 <= k < arms@.len() ==> #[trigger] tys(arms@)[k] == ty(arms@[k]),
                seen@.map_values(|s: String| s@) == names.take(i as int),
                first_repeat(names.take(i as int)) is None,
            decreases arms@.len() - i,
        {
            let key = te_name(&arms[i]);
            assert(key@ == names[i as int]);
            if contains_string(&seen, &key) {
                proof {
                    lemma_first_repeat_found(names, i as int);
                }
                let mut msg = String::from_str("duplicate type '");
                msg.append(key.as_str());
                msg.append("' in union");
                proof {
                    assert(ty(*te) == TyView::Union(tys(arms@)));
                    assert(msg@ =~= "duplicate type '"@ + names[i as int] + "' in union"@);
                }
                return Some(msg);
            }
            proof {
                lemma_first_repeat_prefix(names, i as int);
            }
            seen.push(key);
            i += 1;
            assert(seen@.map_values(|s: String| s@) =~= names.take(i as int));
        }
        proof {
            lemma_no_repeat(names);
        }
        None
    } else {
        None
    }
}


// ── Association lists keyed by name ─────────────────────────────────────────

/// The index of the first entry whose key is `k`.
pub open spec fn key_index<T>(s: Seq<(String, T)>, k: Seq<char>) -> Option<int>
    decreases s.len(),
{
    if s.len() == 0 {
        None
    } else {
        match key_index(s.drop_last(), k) {
            Some(i) => Some(i),
            None => if s.last().0@ == k {
                Some(s.len() - 1)
            } else {
                None
            },
        }
    }
}

/// The value of the first entry whose key is `k`.
pub open spec fn lookup<T>(s: Seq<(String, T)>, k: Seq<char>) -> Option<T> {
    match key_index(s, k) {
        Some(i) => Some(s[i].1),
        None => None,
    }
}

pub proof fn lemma_key_index_bounds<T>(s: Seq<(String, T)>, k: Seq<char>)
    ensures
        key_index(s, k) matches Some(i) ==> 0 <= i < s.len() && s[i].0@ == k,
    decreases s.len(),
{
    if s.len() > 0 {
        lemma_key_index_bounds(s.drop_last(), k);
    }
}

proof fn lemma_key_index_prefix<T>(s: Seq<(String, T)>, k: Seq<char>, m: int)
    requires
        0 <= m <= s.len(),
        key_index(s.take(m), k) is Some,
    ensures
        key_index(s, k) == key_index(s.take(m), k),
    decreases s.len() - m,
{
    if m < s.len() {
        let t = s.take(m + 1);
        assert(t.drop_last() =~= s.take(m));
        lemma_key_index_prefix(s, k, m + 1);
    } else {
        assert(s.take(m) =~= s);
    }
}

proof fn lemma_key_index_none<T>(s: Seq<(String, T)>, k: Seq<char>)
    requires
        forall|j: int| 0 <= j < s.len() ==> (#[trigger] s[j]).0@ != k,
    ensures
        key_index(s, k) is None,
    decreases s.len(),
{
    if s.len() > 0 {
        lemma_key_index_none(s.drop_last(), k);
    }
}

/// The position of the first entry keyed `k`.
pub fn find_key<T>(v: &Vec<(String, T)>, k: &str) -> (r: Option<usize>)
    ensures
        match r {
            Some(i) => key_index(v@, k@) == Some(i as int),
            None => key_index(v@, k@) is None,
        },
{
    let mut i: usize = 0;
    while i < v.len()
        invariant
            i <= v@.len(),
            forall|j: int| 0 <= j < i ==> (#[trigger] v@[j]).0@ != k@,
        decreases v@.len() - i,
    {
        if str_eq(v[i].0.as_str(), k) {
            proof {
                let t = v@.take(i + 1);
                assert forall|j: int| 0 <= j < t.drop_last().len() implies (#[trigger] t.drop_last()[j]).0@ != k@ by {
                    assert(t.drop_last()[j] == v@[j]);
                }
                lemma_key_index_none(t.drop_last(), k@);
                assert(t.last() == v@[i as int]);
                lemma_key_index_prefix(v@, k@, i + 1);
            }
            return Some(i);
        }
        i += 1;
    }
    proof {
        lemma_key_index_none(v@, k@);
    }
    None
}

/// Whether two strings hold the same characters.
pub fn str_eq(a: &str, b: &str) -> (r: bool)
    ensures
        r == (a@ == b@),
{
    let x = String::from_str(a);
    let y = String::from_str(b);
    x == y
}

/// Whether `name` is among `names`.
pub fn has_name(names: &Vec<String>, name: &str) -> (r: bool)
    ensures
        r == exists|i: int| 0 <= i < names@.len() && (#[trigger] names@[i])@ == name@,
{
    let mut i: usize = 0;
    while i < names.len()
        invariant
            i <= names@.len(),
            forall|j: int| 0 <= j < i ==> (#[trigger] names@[j])@ != name@,
        decreases names@.len() - i,
    {
        if str_eq(names[i].as_str(), name) {
            assert(names@[i as int]@ == name@);
            return true;
        }
        i += 1;
    }
    false
}

/// A copy of a list of names.
pub fn copy_strings_pub(v: &Vec<String>) -> (r: Vec<String>)
    ensures
        r@.len() == v@.len(),
        forall|i: int| 0 <= i < v@.len() ==> #[trigger] r@[i] == v@[i],
{
    copy_strings(v)
}

fn copy_strings(v: &Vec<String>) -> (r: Vec<String>)
    ensures
        r@.len() == v@.len(),
        forall|i: int| 0 <= i < v@.len() ==> #[trigger] r@[i] == v@[i],
{
    let mut r: Vec<String> = Vec::new();
    let mut i: usize = 0;
    while i < v.len()
        invariant
            i <= v@.len(),
            r@.len() == i,
            forall|k: int| 0 <= k < i ==> #[trigger] r@[k] == v@[k],
        decreases v@.len() - i,
    {
        r.push(v[i].clone());
        i += 1;
    }
    r
}

// ── Errors and results ──────────────────────────────────────────────────────

/// A type error, at a source line (0 when unknown).
#[derive(Debug)]
pub struct TypeCheckError {
    pub message: String,
    pub line: usize,
}

impl TypeCheckError {
    /// The error as it is shown: `[line N] type error: message`, or
    /// `type error: message` when the line is unknown.
    pub fn to_string(&self) -> (r: String)
        ensures
            r@ == (if self.line > 0 {
                "[line "@ + int_decimal(self.line as int) + "] type error: "@ + self.message@
            } else {
                "type error: "@ + self.message@
            }),
    {
        if self.line > 0 {
            let mut out = String::from_str("[line ");
            let n = crate::text::u64_to_string(self.line as u64);
            proof {
                assert(int_decimal(self.line as int) == crate::text::nat_digits(self.line as nat));
            }
            out.append(n.as_str());
            out.append("] type error: ");
            out.append(self.message.as_str());
            out
        } else {
            let mut out = String::from_str("type error: ");
            out.append(self.message.as_str());
            out
        }
    }

    /// A copy of this error.
    pub fn copy(&self) -> (r: TypeCheckError)
        ensures
            r == *self,
    {
        TypeCheckError { message: self.message.clone(), line: self.line }
    }
}

/// Return types of functions and methods, and types of class constants, as
/// the checker recorded them.
#[derive(Debug)]
pub struct CheckedTypes {
    function_returns: Vec<(String, Option<TypeExpr>)>,
    class_method_returns: Vec<(String, Vec<(String, Option<TypeExpr>)>)>,
    class_constant_types: Vec<(String, Vec<(String, TypeExpr)>)>,
}

/// The errors of a full check, with the recorded types.
pub struct TypeCheckInfo {
    pub errors: Vec<TypeCheckError>,
    pub types: CheckedTypes,
}

impl CheckedTypes {
    pub closed spec fn functions(&self) -> Seq<(String, Option<TypeExpr>)> {
        self.function_returns@
    }

    pub closed spec fn methods(&self) -> Seq<(String, Vec<(String, Option<TypeExpr>)>)> {
        self.class_method_returns@
    }

    pub closed spec fn constants(&self) -> Seq<(String, Vec<(String, TypeExpr)>)> {
        self.class_constant_types@
    }

    /// `None` when no top-level function `name` was defined; else its return
    /// type, annotated or inferred, if one is known.
    pub fn function_return_type(&self, name: &str) -> (r: Option<Option<TypeExpr>>)
        ensures
            match r {
                Some(t) => lookup(self.functions(), name@) matches Some(x) && opt_ty(t) == opt_ty(x),
                None => lookup(self.functions(), name@) is None,
            },
    {
        proof {
            lemma_key_index_bounds(self.function_returns@, name@);
        }
        match find_key(&self.function_returns, name) {
            Some(i) => Some(copy_opt_type(&self.function_returns[i].1)),
            None => None,
        }
    }

    /// `None` when the class or the method is missing; else the method's
    /// return type, if one is known.
    pub fn method_return_type(&self, class: &str, method: &str) -> (r: Option<Option<TypeExpr>>)
        ensures
            match r {
                Some(t) => lookup(self.methods(), class@) matches Some(ms) && lookup(ms@, method@) matches Some(x)
                    && opt_ty(t) == opt_ty(x),
                None => lookup(self.methods(), class@) matches Some(ms) ==> lookup(ms@, method@) is None,
            },
    {
        proof {
            lemma_key_index_bounds(self.class_method_returns@, class@);
        }
        match find_key(&self.class_method_returns, class) {
            Some(i) => {
                let ms = &self.class_method_returns[i].1;
                proof {
                    lemma_key_index_bounds(ms@, method@);
                }
                match find_key(ms, method) {
                    Some(j) => Some(copy_opt_type(&ms[j].1)),
                    None => None,
                }
            },
            None => None,
        }
    }

    /// `None` when the class is missing; `Some(None)` when the constant is not
    /// found or its type was not inferred; else its type.
    pub fn constant_type(&self, class: &str, constant: &str) -> (r: Option<Option<TypeExpr>>)
        ensures
            match r {
                Some(t) => lookup(self.constants(), class@) matches Some(cs) && opt_ty(t) == match lookup(cs@, constant@) {
                    Some(x) => Some(ty(x)),
                    None => None,
                },
                None => lookup(self.constants(), class@) is None,
            },
    {
        proof {
            lemma_key_index_bounds(self.class_constant_types@, class@);
        }
        match find_key(&self.class_constant_types, class) {
            Some(i) => {
                let cs = &self.class_constant_types[i].1;
                proof {
                    lemma_key_index_bounds(cs@, constant@);
                }
                match find_key(cs, constant) {
                    Some(j) => Some(Some(copy_type(&cs[j].1))),
                    None => Some(None),
                }
            },
            None => None,
        }
    }
}


fn empty_class() -> (r: ClassInfo)
    ensures
        r.type_params@.len() == 0,
        r.superclass_name is None,
        r.includes@.len() == 0,
        r.abstract_declared@.len() == 0,
        r.concrete_instance_names@.len() == 0,
        r.fields@.len() == 0,
        r.methods@.len() == 0,
        r.constants@.len() == 0,
{
    ClassInfo {
        type_params: Vec::new(),
        superclass_name: None,
        includes: Vec::new(),
        abstract_declared: Vec::new(),
        concrete_instance_names: Vec::new(),
        fields: Vec::new(),
        methods: Vec::new(),
        constants: Vec::new(),
    }
}

// ── The checker's state ─────────────────────────────────────────────────────

/// `n`, or `usize::MAX` when it does not fit.
pub open spec fn saturated(n: int) -> int {
    if n > usize::MAX {
        usize::MAX as int
    } else {
        n
    }
}

/// How many methods the classes declare in all.
spec fn method_total(classes: Seq<(String, ClassInfo)>) -> int
    decreases classes.len(),
{
    if classes.len() == 0 {
        0
    } else {
        method_total(classes.drop_last()) + classes.last().1.methods@.len()
    }
}

/// Whether every error of `a` is still in place, in order, at the front of `b`.
pub open spec fn keeps_errors(a: Seq<TypeCheckError>, b: Seq<TypeCheckError>) -> bool {
    a.len() <= b.len() && forall|i: int| 0 <= i < a.len() ==> #[trigger] b[i] == a[i]
}

/// `b` keeps the errors of `a`, and each error added after them has a message
/// that no earlier error has.
pub open spec fn fresh_errors(a: Seq<TypeCheckError>, b: Seq<TypeCheckError>) -> bool {
    &&& keeps_errors(a, b)
    &&& forall|i: int, j: int| #![trigger b[i], b[j]] a.len() <= i < b.len() && 0 <= j < i ==> b[j].message@ != b[i].message@
}

proof fn lemma_fresh_trans(a: Seq<TypeCheckError>, b: Seq<TypeCheckError>, c: Seq<TypeCheckError>)
    requires
        fresh_errors(a, b),
        fresh_errors(b, c),
    ensures
        fresh_errors(a, c),
{
    assert forall|i: int, j: int| #![trigger c[i], c[j]] a.len() <= i < c.len() && 0 <= j < i implies c[j].message@ != c[i].message@ by {
        if i < b.len() {
            assert(c[i] == b[i]);
            assert(c[j] == b[j]);
        }
    }
}

/// How deep compatibility checks through unions and interfaces may nest.
pub const COMPAT_DEPTH: usize = 64;

/// The signature of a function or method.
#[derive(Debug)]
struct FnSig {
    type_params: Vec<String>,
    params: Vec<ParamDef>,
    return_type: Option<TypeExpr>,
}

/// What the checker records of a class.
#[derive(Debug)]
struct ClassInfo {
    type_params: Vec<String>,
    superclass_name: Option<String>,
    includes: Vec<String>,
    abstract_declared: Vec<String>,
    concrete_instance_names: Vec<String>,
    fields: Vec<ParamDef>,
    methods: Vec<(String, FnSig)>,
    constants: Vec<(String, TypeExpr)>,
}

/// What the checker records of an interface.
#[derive(Debug)]
struct InterfaceInfo {
    type_params: Vec<String>,
    methods: Vec<(String, FnSig)>,
}

/// The type checker: the signatures it has collected, the errors it has
/// found, and the scopes of the code it is in.
pub struct TypeChecker {
    functions: Vec<(String, FnSig)>,
    classes: Vec<(String, ClassInfo)>,
    interfaces: Vec<(String, InterfaceInfo)>,
    type_aliases: Vec<(String, TypeExpr)>,
    errors: Vec<TypeCheckError>,
    current_return_type: Option<TypeExpr>,
    current_class: Option<String>,
    var_scopes: Vec<Vec<(String, TypeExpr)>>,
    type_vars: Vec<Vec<String>>,
    lenient: bool,
    current_line: usize,
}

fn copy_param(p: &ParamDef) -> (r: ParamDef)
    ensures
        r.name == p.name,
        opt_ty(r.type_ann) == opt_ty(p.type_ann),
{
    ParamDef { name: p.name.clone(), type_ann: copy_opt_type(&p.type_ann) }
}

fn copy_params(v: &Vec<ParamDef>) -> (r: Vec<ParamDef>)
    ensures
        r@.len() == v@.len(),
        params_same(r@, v@),
{
    let mut r: Vec<ParamDef> = Vec::new();
    let mut i: usize = 0;
    while i < v.len()
        invariant
            i <= v@.len(),
            r@.len() == i,
            forall|k: int| 0 <= k < i ==> (#[trigger] r@[k]).name == v@[k].name && opt_ty(r@[k].type_ann) == opt_ty(v@[k].type_ann),
        decreases v@.len() - i,
    {
        r.push(copy_param(&v[i]));
        i += 1;
    }
    r
}

fn copy_sig(s: &FnSig) -> (r: FnSig)
    ensures
        r.params@.len() == s.params@.len(),
        sig_same(r, *s),
{
    let type_params = copy_strings(&s.type_params);
    assert(type_params@ =~= s.type_params@);
    FnSig { type_params, params: copy_params(&s.params), return_type: copy_opt_type(&s.return_type) }
}

/// Parameters with the same names and annotated types, one for one.
spec fn params_same(a: Seq<ParamDef>, b: Seq<ParamDef>) -> bool {
    a.len() == b.len() && forall|k: int|
        0 <= k < a.len() ==> (#[trigger] a[k]).name == b[k].name && opt_ty(a[k].type_ann) == opt_ty(b[k].type_ann)
}

/// Two signatures with the same type parameters, parameters and return type.
spec fn sig_same(a: FnSig, b: FnSig) -> bool {
    &&& a.type_params@ == b.type_params@
    &&& params_same(a.params@, b.params@)
    &&& opt_ty(a.return_type) == opt_ty(b.return_type)
}

/// The annotated type of the first field named `name`, if it has one.
spec fn field_ann(fields: Seq<ParamDef>, name: Seq<char>) -> Option<TyView>
    decreases fields.len(),
{
    if fields.len() == 0 {
        None
    } else if fields[0].name@ == name {
        opt_ty(fields[0].type_ann)
    } else {
        field_ann(fields.drop_first(), name)
    }
}

fn sig_of(type_params: &Vec<String>, params: &Vec<ParamDef>, return_type: &Option<TypeExpr>) -> (r: FnSig)
    ensures
        r.params@.len() == params@.len(),
        r.type_params@ == type_params@,
        params_same(r.params@, params@),
        opt_ty(r.return_type) == opt_ty(*return_type),
{
    let tp = copy_strings(type_params);
    assert(tp@ =~= type_params@);
    FnSig { type_params: tp, params: copy_params(params), return_type: copy_opt_type(return_type) }
}

/// `r` holds the names and return types of the method signatures `ms`.
spec fn returns_of(r: Seq<(String, Option<TypeExpr>)>, ms: Seq<(String, FnSig)>) -> bool {
    r.len() == ms.len() && forall|k: int|
        0 <= k < ms.len() ==> (#[trigger] r[k]).0 == ms[k].0 && opt_ty(r[k].1) == opt_ty(ms[k].1.return_type)
}

/// `r` holds the names and types of the constants `cs`.
spec fn types_of(r: Seq<(String, TypeExpr)>, cs: Seq<(String, TypeExpr)>) -> bool {
    r.len() == cs.len() && forall|k: int| 0 <= k < cs.len() ==> (#[trigger] r[k]).0 == cs[k].0 && ty(r[k].1) == ty(cs[k].1)
}

/// The signature of method `m` as class `c` has it: its own, else from its
/// includes in order, else from its superclass, following at most `fuel`
/// classes.
spec fn class_sig(classes: Seq<(String, ClassInfo)>, c: Seq<char>, m: Seq<char>, fuel: nat) -> Option<FnSig>
    decreases fuel, 0nat, 0nat,
{
    match lookup(classes, c) {
        None => None,
        Some(ci) => match lookup(ci.methods@, m) {
            Some(s) => Some(s),
            None => if fuel == 0 {
                None
            } else {
                match include_sig(classes, ci.includes@, m, (fuel - 1) as nat) {
                    Some(s) => Some(s),
                    None => match ci.superclass_name {
                        Some(sup) => class_sig(classes, sup@, m, (fuel - 1) as nat),
                        None => None,
                    },
                }
            },
        },
    }
}

/// The first signature of `m` found through the classes `incs`, in order.
spec fn include_sig(classes: Seq<(String, ClassInfo)>, incs: Seq<String>, m: Seq<char>, fuel: nat) -> Option<FnSig>
    decreases fuel, 1nat, incs.len(),
{
    if incs.len() == 0 {
        None
    } else {
        match class_sig(classes, incs[0]@, m, fuel) {
            Some(s) => Some(s),
            None => include_sig(classes, incs.drop_first(), m, fuel),
        }
    }
}

/// The entry `e` with `t` as its return type.
spec fn with_return(e: (String, FnSig), t: TypeExpr) -> (String, FnSig) {
    (e.0, FnSig { type_params: e.1.type_params, params: e.1.params, return_type: Some(t) })
}

/// The class entry `b` is `a` with the method `m`, if `a` has it, given the
/// return type `t`.
spec fn method_return_set(a: (String, ClassInfo), b: (String, ClassInfo), m: Seq<char>, t: TypeExpr) -> bool {
    &&& b.0 == a.0
    &&& b.1.type_params == a.1.type_params
    &&& b.1.superclass_name == a.1.superclass_name
    &&& b.1.includes == a.1.includes
    &&& b.1.abstract_declared == a.1.abstract_declared
    &&& b.1.concrete_instance_names == a.1.concrete_instance_names
    &&& b.1.fields == a.1.fields
    &&& b.1.constants == a.1.constants
    &&& match key_index(a.1.methods@, m) {
        Some(j) => b.1.methods@ == a.1.methods@.update(j, with_return(a.1.methods@[j], t)),
        None => b.1.methods@ == a.1.methods@,
    }
}

/// The signature `s` is that of the method `m`.
spec fn sig_of_method(s: FnSig, m: MethodDef) -> bool {
    &&& s.type_params@ == m.type_params@
    &&& params_same(s.params@, m.params@)
    &&& opt_ty(s.return_type) == opt_ty(m.return_type)
}

/// The last of `ms` named `x`.
spec fn last_method_named(ms: Seq<MethodDef>, x: Seq<char>) -> Option<MethodDef>
    decreases ms.len(),
{
    if ms.len() == 0 {
        None
    } else if ms.last().name@ == x {
        Some(ms.last())
    } else {
        last_method_named(ms.drop_last(), x)
    }
}

/// The signatures of `methods`, by name.
fn method_sigs(methods: &Vec<MethodDef>) -> (r: Vec<(String, FnSig)>)
    ensures
        forall|x: Seq<char>| match last_method_named(methods@, x) {
            Some(m) => #[trigger] lookup(r@, x) matches Some(s) && sig_of_method(s, m),
            None => lookup(r@, x) is None,
        },
{
    let mut r: Vec<(String, FnSig)> = Vec::new();
    let mut i: usize = 0;
    while i < methods.len()
        invariant
            i <= methods@.len(),
            forall|x: Seq<char>| match last_method_named(methods@.take(i as int), x) {
                Some(m) => #[trigger] lookup(r@, x) matches Some(s) && sig_of_method(s, m),
                None => lookup(r@, x) is None,
            },
        decreases methods@.len() - i,
    {
        let m = &methods[i];
        let sig = sig_of(&m.type_params, &m.params, &m.return_type);
        let ghost r0 = r@;
        assoc_insert(&mut r, m.name.clone(), sig);
        proof {
            let t = methods@.take(i + 1);
            assert(t.drop_last() =~= methods@.take(i as int));
            assert(t.last() == methods@[i as int]);
            assert forall|x: Seq<char>| match last_method_named(t, x) {
                Some(mm) => #[trigger] lookup(r@, x) matches Some(s) && sig_of_method(s, mm),
                None => lookup(r@, x) is None,
            } by {
                if x != methods@[i as int].name@ {
                    assert(lookup(r@, x) == lookup(r0, x));
                }
            }
        }
        i += 1;
    }
    proof {
        assert(methods@.take(methods@.len() as int) =~= methods@);
    }
    r
}

/// Bind `k` to `x`: replace the entry keyed `k`, or add one at the end.
pub fn assoc_insert<T>(v: &mut Vec<(String, T)>, k: String, x: T)
    ensures
        lookup(final(v)@, k@) == Some(x),
        forall|k2: Seq<char>| k2 != k@ ==> #[trigger] lookup(final(v)@, k2) == lookup(old(v)@, k2),
{
    match find_key(v, k.as_str()) {
        Some(i) => {
            proof {
                lemma_key_index_bounds(v@, k@);
            }
            let ghost old_v = v@;
            let ghost kv = k@;
            v.set(i, (k, x));
            proof {
                lemma_key_index_same(old_v, v@, k@, i as int);
                assert forall|k2: Seq<char>| k2 != kv implies #[trigger] lookup(v@, k2) == lookup(old_v, k2) by {
                    assert(v@ == old_v.update(i as int, v@[i as int]));
                    lemma_lookup_set(old_v, i as int, v@[i as int], k2);
                }
            }
        },
        None => {
            let ghost old_v = v@;
            let ghost kv = k@;
            v.push((k, x));
            proof {
                assert(v@.drop_last() =~= old_v);
                lemma_key_index_bounds(v@, k@);
                assert forall|k2: Seq<char>| k2 != kv implies #[trigger] lookup(v@, k2) == lookup(old_v, k2) by {
                    lemma_key_index_bounds(old_v, k2);
                }
            }
        },
    }
}

proof fn lemma_lookup_set<T>(a: Seq<(String, T)>, i: int, e: (String, T), k2: Seq<char>)
    requires
        0 <= i < a.len(),
        a[i].0@ == e.0@,
        k2 != e.0@,
    ensures
        key_index(a.update(i, e), k2) == key_index(a, k2),
        lookup(a.update(i, e), k2) == lookup(a, k2),
    decreases a.len(),
{
    let b = a.update(i, e);
    if i < a.len() - 1 {
        assert(b.drop_last() =~= a.drop_last().update(i, e));
        lemma_lookup_set(a.drop_last(), i, e, k2);
    } else {
        assert(b.drop_last() =~= a.drop_last());
    }
    lemma_key_index_bounds(a, k2);
}

proof fn lemma_key_index_same<T>(a: Seq<(String, T)>, b: Seq<(String, T)>, k: Seq<char>, i: int)
    requires
        key_index(a, k) == Some(i),
        a.len() == b.len(),
        0 <= i < a.len(),
        b[i].0@ == k,
        forall|j: int| 0 <= j < a.len() && j != i ==> #[trigger] b[j] == a[j],
    ensures
        key_index(b, k) == Some(i),
    decreases a.len(),
{
    lemma_key_index_bounds(a, k);
    if i < a.len() - 1 {
        lemma_key_index_same(a.drop_last(), b.drop_last(), k, i);
    } else {
        lemma_key_index_bounds(a.drop_last(), k);
        assert(key_index(a.drop_last(), k) is None);
        assert forall|j: int| 0 <= j < b.drop_last().len() implies (#[trigger] b.drop_last()[j]).0@ != k by {
            assert(b.drop_last()[j] == a.drop_last()[j]);
            if a.drop_last()[j].0@ == k {
                lemma_first_key(a.drop_last(), k, j);
            }
        }
        lemma_key_index_none(b.drop_last(), k);
    }
}

proof fn lemma_first_key<T>(s: Seq<(String, T)>, k: Seq<char>, j: int)
    requires
        0 <= j < s.len(),
        s[j].0@ == k,
    ensures
        key_index(s, k) is Some,
    decreases s.len(),
{
    if j < s.len() - 1 {
        lemma_first_key(s.drop_last(), k, j);
    }
}

impl TypeChecker {
    fn new() -> (tc: TypeChecker)
        ensures
            tc.errors@.len() == 0,
            tc.functions@.len() == 0,
            tc.classes@.len() == 0,
            tc.interfaces@.len() == 0,
            tc.type_aliases@.len() == 0,
            tc.current_return_type is None,
            tc.current_class is None,
            tc.var_scopes@.len() == 1,
            tc.var_scopes@[0]@.len() == 0,
            tc.type_vars@.len() == 0,
            !tc.lenient,
            tc.current_line == 0,
    {
        let mut scopes: Vec<Vec<(String, TypeExpr)>> = Vec::new();
        scopes.push(Vec::new());
        TypeChecker {
            functions: Vec::new(),
            classes: Vec::new(),
            interfaces: Vec::new(),
            type_aliases: Vec::new(),
            errors: Vec::new(),
            current_return_type: None,
            current_class: None,
            var_scopes: scopes,
            type_vars: Vec::new(),
            lenient: false,
            current_line: 0,
        }
    }

    fn error(&mut self, message: String)
        ensures
            final(self).errors@ == old(self).errors@.push(
                TypeCheckError { message, line: old(self).current_line },
            ),
            keeps_errors(old(self).errors@, final(self).errors@),
            final(self).type_aliases == old(self).type_aliases,
            final(self).var_scopes == old(self).var_scopes,
            final(self).functions == old(self).functions,
            final(self).classes == old(self).classes,
            final(self).type_vars == old(self).type_vars,
            final(self).current_class == old(self).current_class,
            final(self).interfaces == old(self).interfaces,
    {
        let line = self.current_line;
        self.errors.push(TypeCheckError { message, line });
    }

    /// Expand named aliases in `te`, at most `fuel` alias expansions deep
    /// along any path; unions produced by an expansion are flattened one
    /// level, and a union left with one arm becomes that arm.
    fn resolve_fuel(&self, te: &TypeExpr, fuel: usize) -> (r: TypeExpr)
        ensures
            ty(r) == resolved_ty(self.type_aliases@, *te, fuel as nat),
        decreases fuel, *te, 1nat,
    {
        match te {
            TypeExpr::Named(n) => {
                match find_key(&self.type_aliases, n.as_str()) {
                    Some(i) => {
                        proof {
                            lemma_key_index_bounds(self.type_aliases@, n@);
                        }
                        if fuel > 0 {
                            self.resolve_fuel(&self.type_aliases[i].1, fuel - 1)
                        } else {
                            copy_type(te)
                        }
                    },
                    None => copy_type(te),
                }
            },
            TypeExpr::Apply(name, args) => {
                proof {
                    lemma_elems_decrease(*te, *args);
                }
                TypeExpr::Apply(name.clone(), self.resolve_all(args, fuel, Ghost(*te)))
            },
            TypeExpr::Union(arms) => {
                proof {
                    lemma_elems_decrease(*te, *arms);
                }
                let resolved = self.resolve_all(arms, fuel, Ghost(*te));
                let ghost r0 = resolved@;
                let ghost n = r0.len();
                let mut flat: Vec<TypeExpr> = Vec::new();
                let mut resolved = resolved;
                let mut rev: Vec<TypeExpr> = Vec::new();
                while resolved.len() > 0
                    invariant
                        resolved@ == r0.take(resolved@.len() as int),
                        rev@.len() + resolved@.len() == n,
                        n == r0.len(),
                        forall|k: int| 0 <= k < rev@.len() ==> #[trigger] rev@[k] == r0[n - 1 - k],
                    decreases resolved@.len(),
                {
                    let x = resolved.pop().unwrap();
                    proof {
                        assert(resolved@ =~= r0.take(resolved@.len() as int));
                    }
                    rev.push(x);
                }
                proof {
                    assert(tys(r0).take(0) =~= Seq::<TyView>::empty());
                }
                while rev.len() > 0
                    invariant
                        rev@.len() <= n,
                        n == r0.len(),
                        forall|k: int| 0 <= k < rev@.len() ==> #[trigger] rev@[k] == r0[n - 1 - k],
                        tys(flat@) == flatten_arms(tys(r0).take(n - rev@.len())),
                    decreases rev@.len(),
                {
                    let ghost m = n - rev@.len();
                    let ghost f0 = flat@;
                    let arm = rev.pop().unwrap();
                    let ghost a0 = arm;
                    match arm {
                        TypeExpr::Union(inner) => {
                            let mut inner = inner;
                            flat.append(&mut inner);
                            proof {
                                lemma_flatten_step(r0, m, f0, a0, flat@);
                            }
                        },
                        other => {
                            flat.push(other);
                            proof {
                                lemma_flatten_step(r0, m, f0, a0, flat@);
                            }
                        },
                    }
                }
                proof {
                    lemma_tys(r0);
                    assert(tys(r0).take(n as int) =~= tys(r0));
                    lemma_tys(flat@);
                }
                if flat.len() == 1 {
                    let x = flat.pop().unwrap();
                    x
                } else {
                    TypeExpr::Union(flat)
                }
            },
            TypeExpr::Literal(v) => TypeExpr::Literal(v.copy()),
            TypeExpr::Any => TypeExpr::Any,
        }
    }

    fn resolve_all(&self, v: &Vec<TypeExpr>, fuel: usize, Ghost(parent): Ghost<TypeExpr>) -> (r: Vec<TypeExpr>)
        requires
            forall|i: int| 0 <= i < v@.len() ==> decreases_to!(parent => #[trigger] v@[i]),
        ensures
            r@.len() == v@.len(),
            tys(r@) == resolved_tys(self.type_aliases@, v@, fuel as nat),
        decreases fuel, parent, 0nat,
    {
        let mut r: Vec<TypeExpr> = Vec::new();
        let mut i: usize = 0;
        while i < v.len()
            invariant
                i <= v@.len(),
                r@.len() == i,
                forall|k: int| 0 <= k < v@.len() ==> decreases_to!(parent => #[trigger] v@[k]),
                forall|k: int| 0 <= k < i ==> ty(#[trigger] r@[k]) == resolved_ty(self.type_aliases@, v@[k], fuel as nat),
            decreases v@.len() - i,
        {
            assert(decreases_to!(parent => v@[i as int]));
            r.push(self.resolve_fuel(&v[i], fuel));
            i += 1;
        }
        proof {
            lemma_resolved_tys(self.type_aliases@, v@, fuel as nat, r@);
        }
        r
    }

    /// `te` with its aliases expanded.  An alias that (through others) names
    /// itself is expanded as far as there are aliases and then left as is.
    fn resolve_type(&self, te: &TypeExpr) -> (r: TypeExpr)
        ensures
            ty(r) == resolved_ty(self.type_aliases@, *te, self.type_aliases@.len()),
    {
        self.resolve_fuel(te, self.type_aliases.len())
    }

    fn push_type_vars(&mut self, params: &Vec<String>)
        ensures
            final(self).errors == old(self).errors,
            final(self).type_aliases == old(self).type_aliases,
            final(self).functions == old(self).functions,
            final(self).classes == old(self).classes,
            final(self).type_vars@.len() == old(self).type_vars@.len() + 1,
            forall|i: int| 0 <= i < old(self).type_vars@.len() ==> #[trigger] final(self).type_vars@[i] == old(self).type_vars@[i],
            final(self).type_vars@.last()@ == params@,
    {
        let v = copy_strings(params);
        assert(v@ =~= params@);
        self.type_vars.push(v);
    }

    fn pop_type_vars(&mut self)
        ensures
            final(self).errors == old(self).errors,
            final(self).type_aliases == old(self).type_aliases,
            final(self).functions == old(self).functions,
    {
        let _ = self.type_vars.pop();
    }

    /// The type of the expression forms whose type the checker reads off
    /// directly: literals, `self`, `super`, variables (innermost scope, then
    /// the current class's constants), string interpolation, collection and
    /// range literals, comparisons and logic, `!`, `~`, `while`, class and
    /// function definitions, and reads of a class constant.  `None` for the
    /// other forms.
    spec fn direct_type(&self, e: Expr) -> Option<Option<TyView>> {
        match e {
            Expr::Literal(v) => Some(Some(literal_type(v))),
            Expr::SelfExpr => Some(match self.current_class {
                Some(cn) => Some(TyView::Named(cn@)),
                None => None,
            }),
            Expr::Super { .. } => Some(Some(TyView::Any)),
            Expr::Variable(n) => Some(match scope_lookup(self.var_scopes@, n@) {
                Some(t) => Some(ty(t)),
                None => match self.current_class {
                    Some(cn) => match lookup(self.classes@, cn@) {
                        Some(c) => opt_ty(lookup(c.constants@, n@)),
                        None => None,
                    },
                    None => None,
                },
            }),
            Expr::StringInterp(_) => Some(Some(TyView::Named("String"@))),
            Expr::ListLit(_) => Some(Some(TyView::Named("List"@))),
            Expr::MapLit(_) => Some(Some(TyView::Named("Map"@))),
            Expr::Range { .. } => Some(Some(TyView::Named("Range"@))),
            Expr::Binary { op, .. } => match op.kind {
                TokenKind::EqEq | TokenKind::BangEq | TokenKind::Less | TokenKind::LessEq | TokenKind::Greater
                | TokenKind::GreaterEq | TokenKind::AmpAmp | TokenKind::PipePipe => Some(Some(TyView::Named("Bool"@))),
                _ => None,
            },
            Expr::Unary { op, .. } => match op.kind {
                TokenKind::Bang => Some(Some(TyView::Named("Bool"@))),
                TokenKind::Tilde => Some(Some(TyView::Named("Int"@))),
                _ => None,
            },
            Expr::While { .. } => Some(Some(TyView::Named("Nil"@))),
            Expr::Class { name, .. } => Some(Some(TyView::Named(name@))),
            Expr::Function { .. } => Some(Some(TyView::Named("String"@))),
            Expr::Get { object, name, .. } => match *object {
                Expr::Variable(cn) => Some(match lookup(self.classes@, cn@) {
                    Some(c) => opt_ty(lookup(c.constants@, name@)),
                    None => None,
                }),
                _ => None,
            },
            _ => None,
        }
    }

    /// `te` is a name of a type variable in scope.
    spec fn names_type_var(&self, t: TyView) -> bool {
        t matches TyView::Named(n) && exists|i: int, j: int|
            0 <= i < self.type_vars@.len() && 0 <= j < self.type_vars@[i]@.len() && (#[trigger] self.type_vars@[i]@[j])@ == n
    }

    /// A value of the named type `at` does not fit the annotation `rt`: neither names a
    /// type variable in scope, both expand (through aliases) to types that
    /// are not unions, the value's is no class, and the two are not
    /// compatible.
    /// A returned named type that fits the declared return type: neither
    /// side a union once aliases are resolved, and the two compatible (so an
    /// `Int` fits a declared `Num`).
    spec fn return_fits(&self, at: TyView, rt: TypeExpr) -> bool {
        let a = match at {
            TyView::Named(n) => resolved_named(self.type_aliases@, n, self.type_aliases@.len()),
            other => other,
        };
        let e = resolved_ty(self.type_aliases@, rt, self.type_aliases@.len());
        &&& at is Named
        &&& !(a is Union)
        &&& !(e is Union)
        &&& compatible(a, e)
    }

    /// The argument `e` passes a parameter annotated `te`: its type is not
    /// known directly, or it names or meets a type variable in scope, or it
    /// fits the annotation (see `return_fits`).
    spec fn arg_fits(&self, te: TypeExpr, e: Expr) -> bool {
        match self.direct_type(e) {
            Some(None) => true,
            Some(Some(at)) => self.names_type_var(ty(te)) || self.names_type_var(at) || self.return_fits(at, te),
            None => false,
        }
    }

    spec fn return_mismatch_owed(&self, at: TyView, rt: TypeExpr) -> bool {
        let a = match at {
            TyView::Named(n) => resolved_named(self.type_aliases@, n, self.type_aliases@.len()),
            other => other,
        };
        let e = resolved_ty(self.type_aliases@, rt, self.type_aliases@.len());
        &&& at is Named
        &&& !self.names_type_var(ty(rt))
        &&& !self.names_type_var(at)
        &&& !(a is Union)
        &&& !(e is Union)
        &&& !self.names_class(a)
        &&& !compatible(a, e)
    }

    /// As `return_mismatch_owed`, inside a function whose own type
    /// parameters are `type_params` (which name neither type).
    spec fn fn_return_mismatch_owed(&self, type_params: Seq<String>, at: TyView, rt: TypeExpr) -> bool {
        &&& !named_type_param(type_params, at)
        &&& !named_type_param(type_params, ty(rt))
        &&& self.return_mismatch_owed(at, rt)
    }

    /// A function definition whose body is literals only and whose last
    /// literal does not fit the annotated return type gets its return-mismatch
    /// error reported between the checker states `a` and `b`.
    spec fn literal_mismatch_reported(a: &TypeChecker, b: &TypeChecker, e: Expr) -> bool {
        match e {
            Expr::Function { type_params, return_type: Some(rt), body, .. } => {
                (body@.len() > 0 && (forall|i: int| 0 <= i < body@.len() ==> #[trigger] body@[i] is Literal) && (a.direct_type(
                    body@.last(),
                ) matches Some(Some(at)) && a.fn_return_mismatch_owed(type_params@, at, rt))) ==> exists|k: int|
                    a.errors@.len() <= k < b.errors@.len() && (#[trigger] b.errors@[k]).message@ == "return value expected "@
                        + ty_name(ty(rt)) + ", got "@ + ty_name(a.direct_type(body@.last())->Some_0->Some_0)
            },
            _ => true,
        }
    }

    /// A function annotated with a return type and whose body is literals
    /// only has that return type recorded in `tc`.
    spec fn annotation_recorded(tc: &TypeChecker, e: Expr) -> bool {
        lone_literal_fn(e) ==> (lookup(tc.functions@, e->Function_name@) matches Some(f) && opt_ty(f.return_type) == Some(
            literal_fn_return(e),
        ))
    }

    /// `t` is a named or applied type whose name is a class.
    spec fn names_class(&self, t: TyView) -> bool {
        match t {
            TyView::Named(n) => lookup(self.classes@, n) is Some,
            TyView::Apply(n, _) => lookup(self.classes@, n) is Some,
            _ => false,
        }
    }

    fn is_type_var(&self, name: &str) -> (r: bool)
        ensures
            r == exists|i: int, j: int|
                0 <= i < self.type_vars@.len() && 0 <= j < self.type_vars@[i]@.len() && (#[trigger] self.type_vars@[i]@[j])@
                    == name@,
    {
        let mut i = self.type_vars.len();
        while i > 0
            invariant
                i <= self.type_vars@.len(),
                forall|a: int, j: int|
                    i <= a < self.type_vars@.len() && 0 <= j < self.type_vars@[a]@.len() ==> (#[trigger] self.type_vars@[a]@[j])@
                        != name@,
            decreases i,
        {
            i -= 1;
            if has_name(&self.type_vars[i], name) {
                return true;
            }
        }
        false
    }

    fn push_scope(&mut self)
        ensures
            final(self).errors == old(self).errors,
            final(self).type_aliases == old(self).type_aliases,
            final(self).functions == old(self).functions,
            final(self).classes == old(self).classes,
            final(self).type_vars == old(self).type_vars,
    {
        self.var_scopes.push(Vec::new());
    }

    fn pop_scope(&mut self)
        ensures
            final(self).errors == old(self).errors,
            final(self).type_aliases == old(self).type_aliases,
            final(self).functions == old(self).functions,
            final(self).classes == old(self).classes,
            final(self).type_vars == old(self).type_vars,
    {
        let _ = self.var_scopes.pop();
    }

    fn set_var(&mut self, name: &str, t: TypeExpr)
        ensures
            final(self).errors == old(self).errors,
            final(self).type_aliases == old(self).type_aliases,
            final(self).functions == old(self).functions,
            final(self).classes == old(self).classes,
            final(self).type_vars == old(self).type_vars,
            old(self).var_scopes@.len() == 0 ==> final(self).var_scopes@ == old(self).var_scopes@,
            old(self).var_scopes@.len() > 0 ==> {
                &&& final(self).var_scopes@.len() == old(self).var_scopes@.len()
                &&& final(self).var_scopes@.drop_last() == old(self).var_scopes@.drop_last()
                &&& lookup(final(self).var_scopes@.last()@, name@) == Some(t)
                &&& forall|x: Seq<char>| x != name@ ==> #[trigger] lookup(final(self).var_scopes@.last()@, x)
                    == lookup(old(self).var_scopes@.last()@, x)
            },
    {
        if let Some(mut scope) = self.var_scopes.pop() {
            assoc_insert(&mut scope, String::from_str(name), t);
            self.var_scopes.push(scope);
            proof {
                assert(self.var_scopes@.drop_last() =~= old(self).var_scopes@.drop_last());
            }
        }
    }

    fn get_var(&self, name: &str) -> (r: Option<TypeExpr>)
        ensures
            opt_ty(r) == opt_ty(scope_lookup(self.var_scopes@, name@)),
    {
        let mut i = self.var_scopes.len();
        proof {
            assert(self.var_scopes@.take(i as int) =~= self.var_scopes@);
        }
        while i > 0
            invariant
                i <= self.var_scopes@.len(),
                scope_lookup(self.var_scopes@, name@) == scope_lookup(self.var_scopes@.take(i as int), name@),
            decreases i,
        {
            proof {
                assert(self.var_scopes@.take(i as int).drop_last() =~= self.var_scopes@.take(i - 1));
                assert(self.var_scopes@.take(i as int).last() == self.var_scopes@[i - 1]);
            }
            i -= 1;
            let scope = &self.var_scopes[i];
            match find_key(scope, name) {
                Some(j) => {
                    proof {
                        lemma_key_index_bounds(scope@, name@);
                    }
                    return Some(copy_type(&scope[j].1));
                },
                None => {},
            }
        }
        None
    }
}


/// The annotation of the last annotated parameter named `x`.
spec fn last_param_ann(params: Seq<ParamDef>, x: Seq<char>) -> Option<TypeExpr>
    decreases params.len(),
{
    if params.len() == 0 {
        None
    } else if params.last().name@ == x && params.last().type_ann is Some {
        params.last().type_ann
    } else {
        last_param_ann(params.drop_last(), x)
    }
}

/// The type bound to `name` in the innermost scope that binds it.
spec fn scope_lookup(scopes: Seq<Vec<(String, TypeExpr)>>, name: Seq<char>) -> Option<TypeExpr>
    decreases scopes.len(),
{
    if scopes.len() == 0 {
        None
    } else {
        match lookup(scopes.last()@, name) {
            Some(t) => Some(t),
            None => scope_lookup(scopes.drop_last(), name),
        }
    }
}

/// `te` with each name bound in `subs` replaced by its binding.
pub open spec fn subst_ty(te: TypeExpr, subs: Seq<(String, TypeExpr)>) -> TyView
    decreases te,
{
    match te {
        TypeExpr::Named(n) => match lookup(subs, n@) {
            Some(t) => ty(t),
            None => TyView::Named(n@),
        },
        TypeExpr::Apply(n, args) => TyView::Apply(n@, subst_tys(args@, subs)),
        TypeExpr::Literal(v) => TyView::Literal(lit_view(v)),
        TypeExpr::Union(arms) => TyView::Union(subst_tys(arms@, subs)),
        TypeExpr::Any => TyView::Any,
    }
}

/// `subst_ty` of each element.
pub open spec fn subst_tys(s: Seq<TypeExpr>, subs: Seq<(String, TypeExpr)>) -> Seq<TyView>
    decreases s,
{
    if s.len() == 0 {
        Seq::empty()
    } else {
        subst_tys(s.drop_last(), subs).push(subst_ty(s.last(), subs))
    }
}

proof fn lemma_subst_tys(s: Seq<TypeExpr>, subs: Seq<(String, TypeExpr)>, r: Seq<TypeExpr>)
    requires
        r.len() == s.len(),
        forall|i: int| 0 <= i < s.len() ==> ty(#[trigger] r[i]) == subst_ty(s[i], subs),
    ensures
        tys(r) == subst_tys(s, subs),
    decreases s.len(),
{
    if s.len() > 0 {
        assert forall|i: int| 0 <= i < s.len() - 1 implies ty(#[trigger] r.drop_last()[i]) == subst_ty(s.drop_last()[i], subs) by {
            assert(r.drop_last()[i] == r[i]);
            assert(s.drop_last()[i] == s[i]);
        }
        lemma_subst_tys(s.drop_last(), subs, r.drop_last());
        assert(ty(r[r.len() - 1]) == subst_ty(s[s.len() - 1], subs));
    }
}

/// The argument bound to `x` by the last of the first `n` parameters named `x`.
spec fn last_binding(params: Seq<String>, args: Seq<TypeExpr>, n: int, x: Seq<char>) -> Option<TypeExpr>
    decreases n,
{
    if n <= 0 {
        None
    } else if params[n - 1]@ == x {
        Some(args[n - 1])
    } else {
        last_binding(params, args, n - 1, x)
    }
}

/// Replace the type variables of `te` bound in `subs`.
fn substitute_type(te: &TypeExpr, subs: &Vec<(String, TypeExpr)>) -> (r: TypeExpr)
    ensures
        ty(r) == subst_ty(*te, subs@),
    decreases *te, 1nat,
{
    match te {
        TypeExpr::Named(name) => match find_key(subs, name.as_str()) {
            Some(i) => {
                proof {
                    lemma_key_index_bounds(subs@, name@);
                }
                copy_type(&subs[i].1)
            },
            None => copy_type(te),
        },
        TypeExpr::Apply(name, args) => {
            proof {
                lemma_elems_decrease(*te, *args);
            }
            TypeExpr::Apply(name.clone(), substitute_all(args, subs, Ghost(*te)))
        },
        TypeExpr::Union(arms) => {
            proof {
                lemma_elems_decrease(*te, *arms);
            }
            TypeExpr::Union(substitute_all(arms, subs, Ghost(*te)))
        },
        TypeExpr::Literal(v) => TypeExpr::Literal(v.copy()),
        TypeExpr::Any => TypeExpr::Any,
    }
}

fn substitute_all(v: &Vec<TypeExpr>, subs: &Vec<(String, TypeExpr)>, Ghost(parent): Ghost<TypeExpr>) -> (r: Vec<TypeExpr>)
    requires
        forall|i: int| 0 <= i < v@.len() ==> decreases_to!(parent => #[trigger] v@[i]),
    ensures
        tys(r@) == subst_tys(v@, subs@),
    decreases parent, 0nat,
{
    let mut r: Vec<TypeExpr> = Vec::new();
    let mut i: usize = 0;
    while i < v.len()
        invariant
            i <= v@.len(),
            forall|k: int| 0 <= k < v@.len() ==> decreases_to!(parent => #[trigger] v@[k]),
            r@.len() == i,
            forall|k: int| 0 <= k < i ==> ty(#[trigger] r@[k]) == subst_ty(v@[k], subs@),
        decreases v@.len() - i,
    {
        assert(decreases_to!(parent => v@[i as int]));
        r.push(substitute_type(&v[i], subs));
        i += 1;
    }
    proof {
        lemma_subst_tys(v@, subs@, r@);
    }
    r
}

fn substitute_sig(sig: &FnSig, subs: &Vec<(String, TypeExpr)>) -> (r: FnSig)
    ensures
        r.params@.len() == sig.params@.len(),
{
    let mut params: Vec<ParamDef> = Vec::new();
    let mut i: usize = 0;
    while i < sig.params.len()
        invariant
            i <= sig.params@.len(),
            params@.len() == i,
        decreases sig.params@.len() - i,
    {
        let p = &sig.params[i];
        let type_ann = match &p.type_ann {
            Some(t) => Some(substitute_type(t, subs)),
            None => None,
        };
        params.push(ParamDef { name: p.name.clone(), type_ann });
        i += 1;
    }
    let return_type = match &sig.return_type {
        Some(t) => Some(substitute_type(t, subs)),
        None => None,
    };
    FnSig { type_params: copy_strings(&sig.type_params), params, return_type }
}

/// The bindings of type parameters to type arguments, pairwise; a parameter
/// named twice is bound to its later argument.
fn bind_type_params(params: &Vec<String>, args: &Vec<TypeExpr>) -> (r: Vec<(String, TypeExpr)>)
    ensures
        forall|x: Seq<char>|
            #[trigger] opt_ty(lookup(r@, x)) == opt_ty(
                last_binding(params@, args@, if params@.len() < args@.len() { params@.len() as int } else { args@.len() as int }, x),
            ),
{
    let mut subs: Vec<(String, TypeExpr)> = Vec::new();
    let mut i: usize = 0;
    while i < params.len() && i < args.len()
        invariant
            i <= params@.len(),
            i <= args@.len(),
            forall|x: Seq<char>| #[trigger] opt_ty(lookup(subs@, x)) == opt_ty(last_binding(params@, args@, i as int, x)),
        decreases params@.len() - i,
    {
        let ghost s0 = subs@;
        let t = copy_type(&args[i]);
        assoc_insert(&mut subs, params[i].clone(), t);
        proof {
            assert forall|x: Seq<char>| #[trigger] opt_ty(lookup(subs@, x)) == opt_ty(last_binding(params@, args@, i + 1, x)) by {
                if x != params@[i as int]@ {
                    assert(lookup(subs@, x) == lookup(s0, x));
                }
            }
        }
        i += 1;
    }
    subs
}

/// `Foo` or `Outer.Inner` from a variable or a chain of attribute reads.
fn static_superclass_chain_name(expr: &Expr) -> (r: Option<String>)
    ensures
        match r {
            Some(n) => chain_name(*expr) == Some(n@),
            None => chain_name(*expr) is None,
        },
    decreases *expr,
{
    match expr {
        Expr::Variable(s) => Some(s.clone()),
        Expr::Get { object, name, .. } => match static_superclass_chain_name(object) {
            Some(prefix) => {
                let mut out = prefix;
                out.append(".");
                out.append(name.as_str());
                Some(out)
            },
            None => None,
        },
        _ => None,
    }
}

/// The dotted name of a variable or a chain of attribute reads on one.
spec fn chain_name(e: Expr) -> Option<Seq<char>>
    decreases e,
{
    match e {
        Expr::Variable(s) => Some(s@),
        Expr::Get { object, name, .. } => match chain_name(*object) {
            Some(p) => Some(p + "."@ + name@),
            None => None,
        },
        _ => None,
    }
}

/// The name a named or applied type starts with.
spec fn type_head(te: TypeExpr) -> Option<Seq<char>> {
    match te {
        TypeExpr::Named(n) => Some(n@),
        TypeExpr::Apply(n, _) => Some(n@),
        _ => None,
    }
}

fn usize_text(n: usize) -> (r: String)
    ensures
        r@ == int_decimal(n as int),
{
    let r = crate::text::u64_to_string(n as u64);
    assert(int_decimal(n as int) == crate::text::nat_digits(n as nat));
    r
}

impl TypeChecker {
    fn interface_name_and_args(&self, te: &TypeExpr) -> (r: Option<(String, Vec<TypeExpr>)>)
        ensures
            match r {
                Some((n, args)) => {
                    &&& type_head(*te) == Some(n@)
                    &&& lookup(self.interfaces@, n@) is Some
                    &&& tys(args@) == match *te {
                        TypeExpr::Apply(_, a) => tys(a@),
                        _ => Seq::empty(),
                    }
                },
                None => !(type_head(*te) matches Some(h) && lookup(self.interfaces@, h) is Some),
            },
    {
        match te {
            TypeExpr::Named(name) => match find_key(&self.interfaces, name.as_str()) {
                Some(_) => Some((name.clone(), Vec::new())),
                None => None,
            },
            TypeExpr::Apply(name, args) => match find_key(&self.interfaces, name.as_str()) {
                Some(_) => {
                    proof {
                        lemma_elems_decrease(*te, *args);
                    }
                    Some((name.clone(), copy_types(args, Ghost(*te))))
                },
                None => None,
            },
            _ => None,
        }
    }

    fn class_name_from_type(&self, te: &TypeExpr) -> (r: Option<String>)
        ensures
            match r {
                Some(n) => type_head(*te) == Some(n@) && lookup(self.classes@, n@) is Some,
                None => !(type_head(*te) matches Some(h) && lookup(self.classes@, h) is Some),
            },
    {
        match te {
            TypeExpr::Named(name) => match find_key(&self.classes, name.as_str()) {
                Some(_) => Some(name.clone()),
                None => None,
            },
            TypeExpr::Apply(name, _) => match find_key(&self.classes, name.as_str()) {
                Some(_) => Some(name.clone()),
                None => None,
            },
            _ => None,
        }
    }

    /// The signature of `method_name` on values of type `t`: an interface's
    /// method with the interface's type arguments substituted, or a method
    /// declared by the class itself.
    fn method_sig_for_type(&self, t: &TypeExpr, method_name: &str) -> (r: Option<FnSig>) {
        let resolved = self.resolve_type(t);
        if let Some((iname, args)) = self.interface_name_and_args(&resolved) {
            if let Some(ii) = find_key(&self.interfaces, iname.as_str()) {
                proof {
                    lemma_key_index_bounds(self.interfaces@, iname@);
                }
                let interface = &self.interfaces[ii].1;
                if let Some(mi) = find_key(&interface.methods, method_name) {
                    proof {
                        lemma_key_index_bounds(interface.methods@, method_name@);
                    }
                    let subs = bind_type_params(&interface.type_params, &args);
                    return Some(substitute_sig(&interface.methods[mi].1, &subs));
                }
            }
        }
        if let Some(cname) = self.class_name_from_type(&resolved) {
            if let Some(ci) = find_key(&self.classes, cname.as_str()) {
                proof {
                    lemma_key_index_bounds(self.classes@, cname@);
                }
                let cls = &self.classes[ci].1;
                if let Some(mi) = find_key(&cls.methods, method_name) {
                    proof {
                        lemma_key_index_bounds(cls.methods@, method_name@);
                    }
                    return Some(copy_sig(&cls.methods[mi].1));
                }
            }
        }
        None
    }

    /// The signature of `method_name` as `class_name` has it: its own, else
    /// from its included modules in order, else from its superclass.  At most
    /// `fuel` classes are followed, which no acyclic hierarchy exceeds when
    /// `fuel` is the number of classes.
    fn class_method_sig(&self, class_name: &str, method_name: &str, fuel: usize) -> (r: Option<FnSig>)
        ensures
            match r {
                Some(s) => class_sig(self.classes@, class_name@, method_name@, fuel as nat) matches Some(t) && sig_same(s, t),
                None => class_sig(self.classes@, class_name@, method_name@, fuel as nat) is None,
            },
        decreases fuel,
    {
        let ci = match find_key(&self.classes, class_name) {
            Some(ci) => ci,
            None => {
                return None;
            },
        };
        proof {
            lemma_key_index_bounds(self.classes@, class_name@);
        }
        let cls = &self.classes[ci].1;
        if let Some(mi) = find_key(&cls.methods, method_name) {
            proof {
                lemma_key_index_bounds(cls.methods@, method_name@);
            }
            return Some(copy_sig(&cls.methods[mi].1));
        }
        if fuel == 0 {
            return None;
        }
        let mut i: usize = 0;
        proof {
            assert(cls.includes@.subrange(0, cls.includes@.len() as int) =~= cls.includes@);
        }
        while i < cls.includes.len()
            invariant
                i <= cls.includes@.len(),
                fuel > 0,
                lookup(self.classes@, class_name@) == Some(*cls),
                lookup(cls.methods@, method_name@) is None,
                include_sig(self.classes@, cls.includes@, method_name@, (fuel - 1) as nat) == include_sig(
                    self.classes@,
                    cls.includes@.subrange(i as int, cls.includes@.len() as int),
                    method_name@,
                    (fuel - 1) as nat,
                ),
            decreases cls.includes@.len() - i,
        {
            proof {
                let rest = cls.includes@.subrange(i as int, cls.includes@.len() as int);
                assert(rest.drop_first() =~= cls.includes@.subrange(i + 1, cls.includes@.len() as int));
                assert(rest[0] == cls.includes@[i as int]);
            }
            if let Some(sig) = self.class_method_sig(cls.includes[i].as_str(), method_name, fuel - 1) {
                return Some(sig);
            }
            i += 1;
        }
        match &cls.superclass_name {
            Some(sup) => self.class_method_sig(sup.as_str(), method_name, fuel - 1),
            None => None,
        }
    }

    /// Whether the class type `actual` has every method of the interface type
    /// `expected`, with compatible parameter and return types; the error
    /// names the first method, in declaration order, that does not fit.
    fn satisfies_interface(&self, actual: &TypeExpr, expected: &TypeExpr, depth: usize) -> (r: Result<(), String>)
        requires
            depth > 0,
        ensures
            !(type_head(*actual) matches Some(h) && lookup(self.classes@, h) is Some) ==> (r matches Err(m) && m@ == ty_name(
                ty(*actual),
            ) + " is not a class type"@),
            (type_head(*actual) matches Some(h) && lookup(self.classes@, h) is Some) && !(type_head(*expected) matches Some(h)
                && lookup(self.interfaces@, h) is Some) ==> (r matches Err(m) && m@ == ty_name(ty(*expected))
                + " is not an interface type"@),
            (type_head(*actual) matches Some(h) && lookup(self.classes@, h) is Some) && (type_head(*expected) matches Some(h)
                && lookup(self.interfaces@, h) matches Some(ii) && ii.methods@.len() == 0) ==> r is Ok,
        decreases depth, 0nat,
    {
        let class_name = match self.class_name_from_type(actual) {
            Some(c) => c,
            None => {
                let mut m = te_name(actual);
                m.append(" is not a class type");
                return Err(m);
            },
        };
        let (iname, args) = match self.interface_name_and_args(expected) {
            Some(x) => x,
            None => {
                let mut m = te_name(expected);
                m.append(" is not an interface type");
                return Err(m);
            },
        };
        let ii = match find_key(&self.interfaces, iname.as_str()) {
            Some(ii) => ii,
            None => {
                let mut m = te_name(expected);
                m.append(" is not an interface type");
                return Err(m);
            },
        };
        proof {
            lemma_key_index_bounds(self.interfaces@, iname@);
        }
        let interface = &self.interfaces[ii].1;
        let subs = bind_type_params(&interface.type_params, &args);
        let fuel = self.classes.len();
        let mut k: usize = 0;
        while k < interface.methods.len()
            invariant
                k <= interface.methods@.len(),
                depth > 0,
                (type_head(*actual) matches Some(h) && lookup(self.classes@, h) is Some),
                type_head(*expected) == Some(iname@),
                lookup(self.interfaces@, iname@) == Some(*interface),
            decreases interface.methods@.len() - k,
        {
            let method_name = &interface.methods[k].0;
            let expected_sig = substitute_sig(&interface.methods[k].1, &subs);
            let actual_sig = match self.class_method_sig(class_name.as_str(), method_name.as_str(), fuel) {
                Some(s) => s,
                None => {
                    let mut m = self.not_satisfy(actual, expected);
                    m.append(": missing method ");
                    m.append(method_name.as_str());
                    return Err(m);
                },
            };
            if actual_sig.params.len() != expected_sig.params.len() {
                let mut m = self.not_satisfy(actual, expected);
                m.append(": method ");
                m.append(method_name.as_str());
                m.append(" expected ");
                m.append(usize_text(expected_sig.params.len()).as_str());
                m.append(" argument(s), got ");
                m.append(usize_text(actual_sig.params.len()).as_str());
                return Err(m);
            }
            let mut j: usize = 0;
            while j < actual_sig.params.len()
                invariant
                    j <= actual_sig.params@.len(),
                    actual_sig.params@.len() == expected_sig.params@.len(),
                    depth > 0,
                    (type_head(*actual) matches Some(h) && lookup(self.classes@, h) is Some),
                    type_head(*expected) == Some(iname@),
                    lookup(self.interfaces@, iname@) == Some(*interface),
                    k < interface.methods@.len(),
                decreases actual_sig.params@.len() - j,
            {
                let ap = &actual_sig.params[j];
                let ep = &expected_sig.params[j];
                if let (Some(at), Some(et)) = (&ap.type_ann, &ep.type_ann) {
                    if !self.types_compat(at, et, depth - 1) {
                        let mut m = self.not_satisfy(actual, expected);
                        m.append(": method ");
                        m.append(method_name.as_str());
                        m.append(" parameter '");
                        m.append(ep.name.as_str());
                        m.append("' expected ");
                        m.append(te_name(et).as_str());
                        m.append(", got ");
                        m.append(te_name(at).as_str());
                        return Err(m);
                    }
                }
                j += 1;
            }
            if let (Some(ar), Some(er)) = (&actual_sig.return_type, &expected_sig.return_type) {
                if !self.types_compat(ar, er, depth - 1) {
                    let mut m = self.not_satisfy(actual, expected);
                    m.append(": method ");
                    m.append(method_name.as_str());
                    m.append(" expected ");
                    m.append(te_name(er).as_str());
                    m.append(", got ");
                    m.append(te_name(ar).as_str());
                    return Err(m);
                }
            }
            k += 1;
        }
        Ok(())
    }

    fn not_satisfy(&self, actual: &TypeExpr, expected: &TypeExpr) -> (r: String) {
        let mut m = te_name(actual);
        m.append(" does not satisfy ");
        m.append(te_name(expected).as_str());
        m
    }

    /// Whether a value of type `actual` may stand where `expected` is wanted:
    /// type variables in scope fit anything; aliases are expanded; unions are
    /// taken arm by arm; a class fits an interface it satisfies; otherwise
    /// `types_compatible` decides.  Checks nested deeper than `depth` fail.
    fn types_compat(&self, actual: &TypeExpr, expected: &TypeExpr, depth: usize) -> (r: bool)
        ensures
            depth == 0 ==> !r,
            depth > 0 && (self.names_type_var(ty(*expected)) || self.names_type_var(ty(*actual))) ==> r,
            ({
                let a = resolved_ty(self.type_aliases@, *actual, self.type_aliases@.len());
                let e = resolved_ty(self.type_aliases@, *expected, self.type_aliases@.len());
                depth > 0 && !(a is Union) && !(e is Union) && compatible(a, e)
            }) ==> r,
            ({
                let a = resolved_ty(self.type_aliases@, *actual, self.type_aliases@.len());
                let e = resolved_ty(self.type_aliases@, *expected, self.type_aliases@.len());
                depth > 0 && !self.names_type_var(ty(*expected)) && !self.names_type_var(ty(*actual)) && !(a is Union) && !(
                e is Union) && !self.names_class(a)
            }) ==> r == compatible(
                resolved_ty(self.type_aliases@, *actual, self.type_aliases@.len()),
                resolved_ty(self.type_aliases@, *expected, self.type_aliases@.len()),
            ),
        decreases depth, 1nat,
    {
        if depth == 0 {
            return false;
        }
        if let TypeExpr::Named(n) = expected {
            if self.is_type_var(n.as_str()) {
                return true;
            }
        }
        if let TypeExpr::Named(n) = actual {
            if self.is_type_var(n.as_str()) {
                return true;
            }
        }
        assert(!self.names_type_var(ty(*expected)) && !self.names_type_var(ty(*actual)));
        let a = self.resolve_type(actual);
        let e = self.resolve_type(expected);
        if let TypeExpr::Union(arms) = &a {
            let mut i: usize = 0;
            while i < arms.len()
                invariant
                    i <= arms@.len(),
                    depth > 0,
                    !self.names_type_var(ty(*expected)) && !self.names_type_var(ty(*actual)),
                    resolved_ty(self.type_aliases@, *actual, self.type_aliases@.len()) is Union,
                decreases arms@.len() - i,
            {
                if !self.types_compat(&arms[i], &e, depth - 1) {
                    return false;
                }
                i += 1;
            }
            return true;
        }
        if let TypeExpr::Union(arms) = &e {
            let mut i: usize = 0;
            while i < arms.len()
                invariant
                    i <= arms@.len(),
                    depth > 0,
                    !self.names_type_var(ty(*expected)) && !self.names_type_var(ty(*actual)),
                    resolved_ty(self.type_aliases@, *expected, self.type_aliases@.len()) is Union,
                decreases arms@.len() - i,
            {
                if self.types_compat(&a, &arms[i], depth - 1) {
                    return true;
                }
                i += 1;
            }
            return false;
        }
        if self.satisfies_interface(&a, &e, depth).is_ok() {
            return true;
        }
        types_compatible(&a, &e)
    }

    /// The abstract instance methods still owed by `class_name`: those
    /// declared abstract along its superclass chain and not given a body by a
    /// class below the declaration.
    fn abstract_methods_after_class(&self, class_name: &str) -> (r: Vec<String>) {
        let mut chain: Vec<String> = Vec::new();
        let mut cur: Option<String> = Some(String::from_str(class_name));
        let bound: u128 = self.classes.len() as u128;
        let mut steps: u128 = 0;
        while steps <= bound
            invariant
                bound == self.classes@.len(),
                bound <= usize::MAX,
                steps <= bound + 1,
            decreases bound + 1 - steps,
        {
            let cname = match &cur {
                Some(c) => c.clone(),
                None => {
                    break;
                },
            };
            chain.push(cname.clone());
            steps += 1;
            match find_key(&self.classes, cname.as_str()) {
                Some(ci) => {
                    proof {
                        lemma_key_index_bounds(self.classes@, cname@);
                    }
                    cur = match &self.classes[ci].1.superclass_name {
                        Some(s) => Some(s.clone()),
                        None => None,
                    };
                },
                None => {
                    break;
                },
            }
        }
        let mut pending: Vec<String> = Vec::new();
        let mut i = chain.len();
        while i > 0
            invariant
                i <= chain@.len(),
            decreases i,
        {
            i -= 1;
            if let Some(ci) = find_key(&self.classes, chain[i].as_str()) {
                proof {
                    lemma_key_index_bounds(self.classes@, chain@[i as int]@);
                }
                let c = &self.classes[ci].1;
                let mut j: usize = 0;
                while j < c.abstract_declared.len()
                    invariant
                        j <= c.abstract_declared@.len(),
                    decreases c.abstract_declared@.len() - j,
                {
                    if !has_name(&pending, c.abstract_declared[j].as_str()) {
                        pending.push(c.abstract_declared[j].clone());
                    }
                    j += 1;
                }
                let mut j: usize = 0;
                while j < c.concrete_instance_names.len()
                    invariant
                        j <= c.concrete_instance_names@.len(),
                    decreases c.concrete_instance_names@.len() - j,
                {
                    remove_name(&mut pending, c.concrete_instance_names[j].as_str());
                    j += 1;
                }
            }
        }
        pending
    }
}

/// Remove the entries of `names` equal to `name`.
fn remove_name(names: &mut Vec<String>, name: &str)
    ensures
        final(names)@ == without_name(old(names)@, name@),
{
    let mut kept: Vec<String> = Vec::new();
    let mut i: usize = 0;
    while i < names.len()
        invariant
            i <= names@.len(),
            kept@ == without_name(names@.take(i as int), name@),
        decreases names@.len() - i,
    {
        proof {
            assert(names@.take(i + 1).drop_last() =~= names@.take(i as int));
        }
        if !str_eq(names[i].as_str(), name) {
            kept.push(names[i].clone());
        }
        i += 1;
    }
    proof {
        assert(names@.take(names@.len() as int) =~= names@);
    }
    *names = kept;
}

/// `names` without the entries equal to `name`, the rest in order.
spec fn without_name(names: Seq<String>, name: Seq<char>) -> Seq<String>
    decreases names.len(),
{
    if names.len() == 0 {
        Seq::empty()
    } else if names.last()@ == name {
        without_name(names.drop_last(), name)
    } else {
        without_name(names.drop_last(), name).push(names.last())
    }
}


// ── Walking the program ─────────────────────────────────────────────────────

pub proof fn lemma_exprs_below(parent: Expr, v: Vec<Expr>)
    requires
        decreases_to!(parent => v),
    ensures
        forall|i: int| 0 <= i < v@.len() ==> decreases_to!(parent => #[trigger] v@[i]),
{
    assert forall|i: int| 0 <= i < v@.len() implies decreases_to!(parent => #[trigger] v@[i]) by {
        assert(decreases_to!(v => v@));
        assert(decreases_to!(v@ => v@[i]));
    }
}

pub proof fn lemma_methods_below_pub(parent: Expr, ms: Vec<MethodDef>)
    requires
        decreases_to!(parent => ms),
    ensures
        forall|i: int, j: int|
            0 <= i < ms@.len() && 0 <= j < ms@[i].body@.len() ==> decreases_to!(parent => #[trigger] ms@[i].body@[j]),
{
    lemma_methods_below(parent, ms);
}

proof fn lemma_methods_below(parent: Expr, ms: Vec<MethodDef>)
    requires
        decreases_to!(parent => ms),
    ensures
        forall|i: int, j: int|
            0 <= i < ms@.len() && 0 <= j < ms@[i].body@.len() ==> decreases_to!(parent => #[trigger] ms@[i].body@[j]),
{
    assert forall|i: int, j: int|
        0 <= i < ms@.len() && 0 <= j < ms@[i].body@.len() implies decreases_to!(parent => #[trigger] ms@[i].body@[j]) by {
        assert(decreases_to!(ms => ms@));
        assert(decreases_to!(ms@ => ms@[i]));
        assert(decreases_to!(ms@[i] => ms@[i].body));
        assert(decreases_to!(ms@[i].body => ms@[i].body@));
        assert(decreases_to!(ms@[i].body@ => ms@[i].body@[j]));
    }
}

fn named(s: &str) -> (r: TypeExpr)
    ensures
        ty(r) == TyView::Named(s@),
{
    TypeExpr::Named(String::from_str(s))
}

fn opt_type_eq(a: &Option<TypeExpr>, b: &Option<TypeExpr>) -> (r: bool)
    ensures
        r == (match (*a, *b) {
            (Some(x), Some(y)) => crate::ast::type_expr_eq(x, y),
            (None, None) => true,
            _ => false,
        }),
{
    match (a, b) {
        (Some(x), Some(y)) => crate::ast::type_expr_equal(x, y),
        (None, None) => true,
        _ => false,
    }
}

/// The last statement of a body, if any.
fn last_of(v: &Vec<Expr>) -> (r: Option<&Expr>)
    ensures
        match r {
            Some(e) => v@.len() > 0 && *e == v@[v@.len() - 1],
            None => v@.len() == 0,
        },
{
    if v.len() == 0 {
        None
    } else {
        Some(&v[v.len() - 1])
    }
}

impl TypeChecker {
    fn fn_return_known(&self, name: &str) -> (r: bool)
        ensures
            r == (lookup(self.functions@, name@) matches Some(f) && f.return_type is Some),
    {
        match find_key(&self.functions, name) {
            Some(i) => {
                proof {
                    lemma_key_index_bounds(self.functions@, name@);
                }
                self.functions[i].1.return_type.is_some()
            },
            None => false,
        }
    }

    fn method_return_known(&self, class: &str, method: &str) -> (r: bool)
        ensures
            r == (lookup(self.classes@, class@) matches Some(c) && (lookup(c.methods@, method@) matches Some(f)
                && f.return_type is Some)),
    {
        match find_key(&self.classes, class) {
            Some(i) => {
                proof {
                    lemma_key_index_bounds(self.classes@, class@);
                }
                let ms = &self.classes[i].1.methods;
                match find_key(ms, method) {
                    Some(j) => {
                        proof {
                            lemma_key_index_bounds(ms@, method@);
                        }
                        ms[j].1.return_type.is_some()
                    },
                    None => false,
                }
            },
            None => false,
        }
    }

    /// Record `t` as the return type of the function `name`, if it exists.
    fn set_fn_return(&mut self, name: &str, t: TypeExpr) -> (found: bool)
        ensures
            final(self).errors == old(self).errors,
            final(self).type_aliases == old(self).type_aliases,
            final(self).classes == old(self).classes,
            found == key_index(old(self).functions@, name@) is Some,
            match key_index(old(self).functions@, name@) {
                Some(i) => final(self).functions@ == old(self).functions@.update(i, with_return(old(self).functions@[i], t)),
                None => final(self).functions == old(self).functions,
            },
    {
        match find_key(&self.functions, name) {
            Some(i) => {
                proof {
                    lemma_key_index_bounds(self.functions@, name@);
                }
                let mut entry = (String::new(), FnSig { type_params: Vec::new(), params: Vec::new(), return_type: None });
                std::mem::swap(&mut entry, &mut self.functions[i]);
                let (k, sig) = entry;
                let sig = FnSig { type_params: sig.type_params, params: sig.params, return_type: Some(t) };
                self.functions.set(i, (k, sig));
                true
            },
            None => false,
        }
    }

    /// Record `t` as the return type of `class`'s method `method`, if both exist.
    fn set_method_return(&mut self, class: &str, method: &str, t: TypeExpr) -> (found: bool)
        ensures
            final(self).errors == old(self).errors,
            final(self).type_aliases == old(self).type_aliases,
            final(self).functions == old(self).functions,
            found == (lookup(old(self).classes@, class@) matches Some(c) && key_index(c.methods@, method@) is Some),
            final(self).classes@.len() == old(self).classes@.len(),
            forall|k: int|
                0 <= k < old(self).classes@.len() && key_index(old(self).classes@, class@) != Some(k) ==> #[trigger] final(self).classes@[k]
                    == old(self).classes@[k],
            key_index(old(self).classes@, class@) matches Some(i) ==> method_return_set(
                old(self).classes@[i],
                final(self).classes@[i],
                method@,
                t,
            ),
    {
        match find_key(&self.classes, class) {
            Some(i) => {
                proof {
                    lemma_key_index_bounds(self.classes@, class@);
                }
                let mut entry = (String::new(), empty_class());
                std::mem::swap(&mut entry, &mut self.classes[i]);
                let (k, mut info) = entry;
                let ghost info0 = info;
                let found = match find_key(&info.methods, method) {
                    Some(j) => {
                        proof {
                            lemma_key_index_bounds(info.methods@, method@);
                        }
                        let mut m = (String::new(), FnSig { type_params: Vec::new(), params: Vec::new(), return_type: None });
                        std::mem::swap(&mut m, &mut info.methods[j]);
                        assert(m == info0.methods@[j as int]);
                        let (mk, sig) = m;
                        let sig = FnSig { type_params: sig.type_params, params: sig.params, return_type: Some(t) };
                        info.methods.set(j, (mk, sig));
                        assert(info.methods@ =~= info0.methods@.update(j as int, with_return(info0.methods@[j as int], t)));
                        true
                    },
                    None => false,
                };
                assert(method_return_set((k, info0), (k, info), method@, t));
                self.classes.set(i, (k, info));
                found
            },
            None => false,
        }
    }

    fn class_constant(&self, class: &str, name: &str) -> (r: Option<TypeExpr>)
        ensures
            opt_ty(r) == match lookup(self.classes@, class@) {
                Some(c) => opt_ty(lookup(c.constants@, name@)),
                None => None,
            },
    {
        match find_key(&self.classes, class) {
            Some(i) => {
                proof {
                    lemma_key_index_bounds(self.classes@, class@);
                }
                let cs = &self.classes[i].1.constants;
                match find_key(cs, name) {
                    Some(j) => {
                        proof {
                            lemma_key_index_bounds(cs@, name@);
                        }
                        Some(copy_type(&cs[j].1))
                    },
                    None => None,
                }
            },
            None => None,
        }
    }

    fn field_type(&self, class: &str, field: &str) -> (r: Option<TypeExpr>)
        ensures
            opt_ty(r) == match lookup(self.classes@, class@) {
                Some(c) => field_ann(c.fields@, field@),
                None => None,
            },
    {
        match find_key(&self.classes, class) {
            Some(i) => {
                proof {
                    lemma_key_index_bounds(self.classes@, class@);
                }
                let fs = &self.classes[i].1.fields;
                let mut j: usize = 0;
                assert(fs@.subrange(0, fs@.len() as int) =~= fs@);
                while j < fs.len()
                    invariant
                        j <= fs@.len(),
                        lookup(self.classes@, class@) == Some(self.classes@[i as int].1),
                        fs@ == self.classes@[i as int].1.fields@,
                        field_ann(fs@, field@) == field_ann(fs@.subrange(j as int, fs@.len() as int), field@),
                    decreases fs@.len() - j,
                {
                    proof {
                        assert(fs@.subrange(j + 1, fs@.len() as int) =~= fs@.subrange(j as int, fs@.len() as int).drop_first());
                    }
                    if str_eq(fs[j].name.as_str(), field) {
                        assert(fs@.subrange(j as int, fs@.len() as int)[0] == fs@[j as int]);
                        return copy_opt_type(&fs[j].type_ann);
                    }
                    j += 1;
                }
                None
            },
            None => None,
        }
    }

    fn class_type_params(&self, class: &str) -> (r: Option<Vec<String>>)
        ensures
            match r {
                Some(v) => lookup(self.classes@, class@) matches Some(c) && v@ == c.type_params@,
                None => lookup(self.classes@, class@) is None,
            },
    {
        match find_key(&self.classes, class) {
            Some(i) => {
                proof {
                    lemma_key_index_bounds(self.classes@, class@);
                }
                let v = copy_strings(&self.classes[i].1.type_params);
                assert(v@ =~= self.classes@[i as int].1.type_params@);
                Some(v)
            },
            None => None,
        }
    }

    fn function_sig(&self, name: &str) -> (r: Option<FnSig>)
        ensures
            match r {
                Some(s) => lookup(self.functions@, name@) matches Some(f) && sig_same(s, f),
                None => lookup(self.functions@, name@) is None,
            },
    {
        match find_key(&self.functions, name) {
            Some(i) => {
                proof {
                    lemma_key_index_bounds(self.functions@, name@);
                }
                Some(copy_sig(&self.functions[i].1))
            },
            None => None,
        }
    }

    /// The type of `expr`, as far as the checker can tell without running it.
    fn infer_type(&self, expr: &Expr) -> (r: Option<TypeExpr>)
        ensures
            self.direct_type(*expr) matches Some(t) ==> opt_ty(r) == t,
            arith_expr(*expr) ==> opt_ty(r) == arith_type(*expr),
            (*expr matches Expr::Call { callee, .. } && *callee is Variable) ==> opt_ty(r) == match lookup(
                self.functions@,
                expr->Call_callee->Variable_0@,
            ) {
                Some(f) => opt_ty(f.return_type),
                None => None,
            },
        decreases *expr,
    {
        match expr {
            Expr::SelfExpr => match &self.current_class {
                Some(cn) => Some(TypeExpr::Named(cn.clone())),
                None => None,
            },
            Expr::Super { .. } => Some(TypeExpr::Any),
            Expr::Literal(v) => match v {
                Value::Int(_) => Some(named("Int")),
                Value::Float(_) => Some(named("Float")),
                Value::Str(_) => Some(named("String")),
                Value::Bool(_) => Some(named("Bool")),
                Value::Nil => Some(named("Nil")),
            },
            Expr::Variable(name) => {
                if let Some(t) = self.get_var(name.as_str()) {
                    return Some(t);
                }
                match &self.current_class {
                    Some(cn) => self.class_constant(cn.as_str(), name.as_str()),
                    None => None,
                }
            },
            Expr::Grouping(inner) => self.infer_type(inner),
            Expr::StringInterp(_) => Some(named("String")),
            Expr::ListLit(_) => Some(named("List")),
            Expr::MapLit(_) => Some(named("Map")),
            Expr::Range { .. } => Some(named("Range")),
            Expr::Binary { left, op, right } => match &op.kind {
                TokenKind::Plus => {
                    let l = self.infer_type(left);
                    let r = self.infer_type(right);
                    match (&l, &r) {
                        (Some(TypeExpr::Named(a)), Some(TypeExpr::Named(b))) => {
                            if str_is(a, "String") && str_is(b, "String") {
                                Some(named("String"))
                            } else if str_is(a, "Float") || str_is(b, "Float") {
                                Some(named("Float"))
                            } else if str_is(a, "Int") && str_is(b, "Int") {
                                Some(named("Int"))
                            } else {
                                None
                            }
                        },
                        _ => None,
                    }
                },
                TokenKind::Minus | TokenKind::Star | TokenKind::Slash | TokenKind::Percent => {
                    let l = self.infer_type(left);
                    let r = self.infer_type(right);
                    match (&l, &r) {
                        (Some(TypeExpr::Named(a)), Some(TypeExpr::Named(b))) => {
                            if str_is(a, "Float") || str_is(b, "Float") {
                                Some(named("Float"))
                            } else if str_is(a, "Int") && str_is(b, "Int") {
                                Some(named("Int"))
                            } else {
                                None
                            }
                        },
                        _ => None,
                    }
                },
                TokenKind::EqEq | TokenKind::BangEq | TokenKind::Less | TokenKind::LessEq
                | TokenKind::Greater | TokenKind::GreaterEq | TokenKind::AmpAmp
                | TokenKind::PipePipe => Some(named("Bool")),
                _ => None,
            },
            Expr::Unary { op, right } => match &op.kind {
                TokenKind::Bang => Some(named("Bool")),
                TokenKind::Tilde => Some(named("Int")),
                TokenKind::Minus => match self.infer_type(right) {
                    Some(TypeExpr::Named(n)) => if str_is(&n, "Int") || str_is(&n, "Float") {
                        Some(TypeExpr::Named(n))
                    } else {
                        None
                    },
                    _ => None,
                },
                _ => None,
            },
            Expr::Print(inner) => self.infer_type(inner),
            Expr::If { then_branch, else_branch, .. } => {
                proof {
                    lemma_exprs_below(*expr, *then_branch);
                }
                let then_type = match last_of(then_branch) {
                    Some(e) => self.infer_type(e),
                    None => None,
                };
                let else_type = match else_branch {
                    Some(stmts) => {
                        proof {
                            assert(decreases_to!(*expr => *else_branch));
                            assert(decreases_to!(*else_branch => *stmts));
                            lemma_exprs_below(*expr, *stmts);
                        }
                        match last_of(stmts) {
                            Some(e) => self.infer_type(e),
                            None => None,
                        }
                    },
                    None => None,
                };
                match (then_type, else_type) {
                    (Some(t), Some(e)) => if crate::ast::type_expr_equal(&t, &e) {
                        Some(t)
                    } else {
                        None
                    },
                    (Some(t), None) => if self.lenient {
                        Some(t)
                    } else {
                        None
                    },
                    (None, Some(e)) => if self.lenient {
                        Some(e)
                    } else {
                        None
                    },
                    _ => None,
                }
            },
            Expr::Begin { body, rescue_clauses, .. } => {
                if rescue_clauses.len() == 0 {
                    proof {
                        lemma_exprs_below(*expr, *body);
                    }
                    match last_of(body) {
                        Some(e) => self.infer_type(e),
                        None => None,
                    }
                } else {
                    None
                }
            },
            Expr::Return(inner) => self.infer_type(inner),
            Expr::While { .. } => Some(named("Nil")),
            Expr::MultiAssign { values, .. } => {
                proof {
                    lemma_exprs_below(*expr, *values);
                }
                match last_of(values) {
                    Some(e) => self.infer_type(e),
                    None => None,
                }
            },
            Expr::Class { name, .. } => Some(TypeExpr::Named(name.clone())),
            Expr::Function { .. } => Some(named("String")),
            Expr::Call { callee, .. } => match &**callee {
                Expr::Variable(name) => match self.function_sig(name.as_str()) {
                    Some(sig) => sig.return_type,
                    None => None,
                },
                Expr::Get { object, name: method_name, .. } => {
                    if let Expr::Variable(cn) = &**object {
                        if str_is(method_name, "new") && find_key(&self.classes, cn.as_str()).is_some() {
                            return Some(TypeExpr::Named(cn.clone()));
                        }
                        if let Some(t) = self.class_constant(cn.as_str(), method_name.as_str()) {
                            return Some(t);
                        }
                    }
                    proof {
                        assert(decreases_to!(*expr => **callee));
                    }
                    match self.infer_type(object) {
                        Some(ot) => match self.method_sig_for_type(&ot, method_name.as_str()) {
                            Some(sig) => sig.return_type,
                            None => None,
                        },
                        None => None,
                    }
                },
                Expr::SafeGet { object, name: method_name, .. } => {
                    proof {
                        assert(decreases_to!(*expr => **callee));
                    }
                    match self.infer_type(object) {
                        Some(ot) => match self.method_sig_for_type(&ot, method_name.as_str()) {
                            Some(sig) => match sig.return_type {
                                Some(ret) => {
                                    let mut arms: Vec<TypeExpr> = Vec::new();
                                    arms.push(named("Nil"));
                                    arms.push(ret);
                                    Some(TypeExpr::Union(arms))
                                },
                                None => None,
                            },
                            None => None,
                        },
                        None => None,
                    }
                },
                _ => None,
            },
            Expr::Assign { value, .. } => self.infer_type(value),
            Expr::SetAttr { value, .. } => self.infer_type(value),
            Expr::Index { object, .. } => {
                match &**object {
                    Expr::ListLit(elems) => {
                        proof {
                            assert(decreases_to!(*expr => **object));
                            lemma_exprs_below(**object, *elems);
                        }
                        let mut elem_type: Option<TypeExpr> = None;
                        let mut i: usize = 0;
                        while i < elems.len()
                            invariant
                                i <= elems@.len(),
                                forall|k: int| 0 <= k < elems@.len() ==> decreases_to!(*expr => #[trigger] elems@[k]),
                                self.direct_type(*expr) is None,
                                !arith_expr(*expr),
                                !(*expr matches Expr::Call { callee, .. } && *callee is Variable),
                            decreases elems@.len() - i,
                        {
                            assert(decreases_to!(*expr => elems@[i as int]));
                            let t = self.infer_type(&elems[i]);
                            if elem_type.is_none() {
                                elem_type = t;
                            } else if !opt_type_eq(&t, &elem_type) {
                                return None;
                            }
                            i += 1;
                        }
                        return elem_type;
                    },
                    Expr::MapLit(pairs) => {
                        proof {
                            assert(decreases_to!(*expr => **object));
                            assert(decreases_to!(**object => *pairs));
                            assert forall|k: int| 0 <= k < pairs@.len() implies decreases_to!(*expr => #[trigger] pairs@[k].1) by {
                                assert(decreases_to!(*pairs => pairs@));
                                assert(decreases_to!(pairs@ => pairs@[k]));
                                assert(decreases_to!(pairs@[k] => pairs@[k].1));
                            }
                        }
                        let mut val_type: Option<TypeExpr> = None;
                        let mut i: usize = 0;
                        while i < pairs.len()
                            invariant
                                i <= pairs@.len(),
                                forall|k: int| 0 <= k < pairs@.len() ==> decreases_to!(*expr => #[trigger] pairs@[k].1),
                                self.direct_type(*expr) is None,
                                !arith_expr(*expr),
                                !(*expr matches Expr::Call { callee, .. } && *callee is Variable),
                            decreases pairs@.len() - i,
                        {
                            let t = self.infer_type(&pairs[i].1);
                            if val_type.is_none() {
                                val_type = t;
                            } else if !opt_type_eq(&t, &val_type) {
                                return None;
                            }
                            i += 1;
                        }
                        return val_type;
                    },
                    _ => {},
                }
                match self.infer_type(object) {
                    Some(TypeExpr::Apply(name, args)) => {
                        if str_is(&name, "List") && args.len() == 1 {
                            Some(copy_type(&args[0]))
                        } else if str_is(&name, "Map") && args.len() == 2 {
                            Some(copy_type(&args[1]))
                        } else {
                            None
                        }
                    },
                    _ => None,
                }
            },
            Expr::Get { object, name, .. } => match &**object {
                Expr::Variable(class_name) => self.class_constant(class_name.as_str(), name.as_str()),
                _ => None,
            },
            Expr::Match { arms, .. } => {
                let mut first: Option<TypeExpr> = None;
                let mut i: usize = 0;
                while i < arms.len()
                    invariant
                        i <= arms@.len(),
                        *expr matches Expr::Match { arms: a, .. } && a == *arms,
                    decreases arms@.len() - i,
                {
                    proof {
                        assert(decreases_to!(*expr => *arms));
                        assert(decreases_to!(*arms => arms@));
                        assert(decreases_to!(arms@ => arms@[i as int]));
                        assert(decreases_to!(arms@[i as int] => arms@[i as int].body));
                        lemma_exprs_below(*expr, arms@[i as int].body);
                    }
                    let t = match last_of(&arms[i].body) {
                        Some(e) => self.infer_type(e),
                        None => None,
                    };
                    if i == 0 {
                        first = t;
                    } else if !opt_type_eq(&t, &first) {
                        return None;
                    }
                    i += 1;
                }
                first
            },
            _ => None,
        }
    }
}


fn return_mismatch(rt: &TypeExpr, actual: &TypeExpr) -> (r: String)
    ensures
        r@ == "return value expected "@ + ty_name(ty(*rt)) + ", got "@ + ty_name(ty(*actual)),
{
    let mut m = String::from_str("return value expected ");
    m.append(te_name(rt).as_str());
    m.append(", got ");
    m.append(te_name(actual).as_str());
    m
}

fn field_mismatch(name: &str, te: &TypeExpr, actual: &TypeExpr) -> (r: String)
    ensures
        r@ == "field '"@ + name@ + "' expected "@ + ty_name(ty(*te)) + ", got "@ + ty_name(ty(*actual)),
{
    let mut m = String::from_str("field '");
    m.append(name);
    m.append("' expected ");
    m.append(te_name(te).as_str());
    m.append(", got ");
    m.append(te_name(actual).as_str());
    m
}

impl TypeChecker {
    /// First pass: record the signatures of functions, classes (with nested
    /// classes), interfaces and type aliases, without checking bodies.
    fn collect_def(&mut self, expr: &Expr)
        ensures
            final(self).errors == old(self).errors,
            final(self).type_vars == old(self).type_vars,
            forall|x: Seq<char>| #[trigger] lookup(old(self).classes@, x) is Some ==> lookup(final(self).classes@, x) is Some,
            match *expr {
                Expr::TypeAlias { name, type_expr } => {
                    &&& opt_ty(lookup(final(self).type_aliases@, name@)) == Some(ty(type_expr))
                    &&& forall|x: Seq<char>| x != name@ ==> #[trigger] lookup(final(self).type_aliases@, x) == lookup(old(self).type_aliases@, x)
                    &&& final(self).functions == old(self).functions
                    &&& final(self).classes == old(self).classes
                    &&& final(self).interfaces == old(self).interfaces
                },
                Expr::Function { name, type_params, params, return_type, .. } => {
                    &&& lookup(final(self).functions@, name@) matches Some(sig) && sig.type_params@ == type_params@
                        && params_same(sig.params@, params@) && opt_ty(sig.return_type) == opt_ty(return_type)
                    &&& forall|x: Seq<char>| x != name@ ==> #[trigger] lookup(final(self).functions@, x) == lookup(old(self).functions@, x)
                    &&& final(self).type_aliases == old(self).type_aliases
                    &&& final(self).classes == old(self).classes
                    &&& final(self).interfaces == old(self).interfaces
                },
                Expr::Interface { name, type_params, .. } => {
                    &&& lookup(final(self).interfaces@, name@) matches Some(ii) && ii.type_params@ == type_params@
                    &&& forall|x: Seq<char>| x != name@ ==> #[trigger] lookup(final(self).interfaces@, x) == lookup(old(self).interfaces@, x)
                    &&& final(self).type_aliases == old(self).type_aliases
                    &&& final(self).functions == old(self).functions
                    &&& final(self).classes == old(self).classes
                },
                Expr::Class { name, .. } => lookup(final(self).classes@, name@) is Some,
                _ => {
                    &&& final(self).type_aliases == old(self).type_aliases
                    &&& final(self).functions == old(self).functions
                    &&& final(self).classes == old(self).classes
                    &&& final(self).interfaces == old(self).interfaces
                },
            },
        decreases *expr,
    {
        match expr {
            Expr::TypeAlias { name, type_expr } => {
                assoc_insert(&mut self.type_aliases, name.clone(), copy_type(type_expr));
            },
            Expr::Function { name, type_params, params, return_type, .. } => {
                let sig = sig_of(type_params, params, return_type);
                assoc_insert(&mut self.functions, name.clone(), sig);
            },
            Expr::Class {
                name,
                type_params,
                superclass,
                includes,
                fields,
                methods,
                constants,
                nested,
                ..
            } => {
                let superclass_name = match superclass {
                    Some(e) => static_superclass_chain_name(e),
                    None => None,
                };
                let mut abstract_declared: Vec<String> = Vec::new();
                let mut concrete_instance_names: Vec<String> = Vec::new();
                let mut i: usize = 0;
                while i < methods.len()
                    invariant
                        i <= methods@.len(),
                    decreases methods@.len() - i,
                {
                    let m = &methods[i];
                    if m.is_abstract && !m.class_method {
                        if !has_name(&abstract_declared, m.name.as_str()) {
                            abstract_declared.push(m.name.clone());
                        }
                    }
                    if !m.class_method && !m.is_abstract {
                        if !has_name(&concrete_instance_names, m.name.as_str()) {
                            concrete_instance_names.push(m.name.clone());
                        }
                    }
                    i += 1;
                }
                let sigs = method_sigs(methods);
                let mut constants_map: Vec<(String, TypeExpr)> = Vec::new();
                let mut i: usize = 0;
                while i < constants.len()
                    invariant
                        i <= constants@.len(),
                    decreases constants@.len() - i,
                {
                    if let Some(t) = self.infer_type(&constants[i].1) {
                        assoc_insert(&mut constants_map, constants[i].0.clone(), t);
                    }
                    i += 1;
                }
                let mut field_defs: Vec<ParamDef> = Vec::new();
                let mut i: usize = 0;
                while i < fields.len()
                    invariant
                        i <= fields@.len(),
                    decreases fields@.len() - i,
                {
                    field_defs.push(ParamDef { name: fields[i].name.clone(), type_ann: copy_opt_type(&fields[i].type_ann) });
                    i += 1;
                }
                let info = ClassInfo {
                    type_params: copy_strings(type_params),
                    superclass_name,
                    includes: copy_strings(includes),
                    abstract_declared,
                    concrete_instance_names,
                    fields: field_defs,
                    methods: sigs,
                    constants: constants_map,
                };
                let ghost c0 = self.classes@;
                assoc_insert(&mut self.classes, name.clone(), info);
                proof {
                    lemma_exprs_below(*expr, *nested);
                    assert forall|x: Seq<char>| #[trigger] lookup(old(self).classes@, x) is Some implies lookup(self.classes@, x) is Some by {
                        if x != name@ {
                            assert(lookup(self.classes@, x) == lookup(c0, x));
                        }
                    }
                }
                let mut i: usize = 0;
                while i < nested.len()
                    invariant
                        i <= nested@.len(),
                        self.errors == old(self).errors,
                        self.type_vars == old(self).type_vars,
                        lookup(self.classes@, name@) is Some,
                        forall|x: Seq<char>| #[trigger] lookup(old(self).classes@, x) is Some ==> lookup(self.classes@, x) is Some,
                        forall|k: int| 0 <= k < nested@.len() ==> decreases_to!(*expr => #[trigger] nested@[k]),
                    decreases nested@.len() - i,
                {
                    assert(decreases_to!(*expr => nested@[i as int]));
                    self.collect_def(&nested[i]);
                    i += 1;
                }
            },
            Expr::Interface { name, type_params, methods } => {
                let tp = copy_strings(type_params);
                assert(tp@ =~= type_params@);
                let info = InterfaceInfo { type_params: tp, methods: method_sigs(methods) };
                assoc_insert(&mut self.interfaces, name.clone(), info);
            },
            _ => {},
        }
    }

    /// Report unions that name an arm twice, inside the arguments of applied
    /// types too.
    fn validate_type_ann(&mut self, te: &TypeExpr)
        ensures
            keeps_errors(old(self).errors@, final(self).errors@),
            final(self).var_scopes == old(self).var_scopes,
            final(self).type_aliases == old(self).type_aliases,
            final(self).functions == old(self).functions,
            final(self).classes == old(self).classes,
            final(self).type_vars == old(self).type_vars,
            !(*te is Apply) ==> match union_duplicate(resolved_ty(old(self).type_aliases@, *te, old(self).type_aliases@.len())) {
                Some(m) => {
                    &&& final(self).errors@.len() == old(self).errors@.len() + 1
                    &&& final(self).errors@.last().message@ == m
                    &&& final(self).errors@.last().line == old(self).current_line
                },
                None => final(self).errors == old(self).errors,
            },
        decreases *te,
    {
        match te {
            TypeExpr::Apply(_, args) => {
                proof {
                    lemma_elems_decrease(*te, *args);
                }
                let mut i: usize = 0;
                while i < args.len()
                    invariant
                        i <= args@.len(),
                        keeps_errors(old(self).errors@, self.errors@),
                        self.var_scopes == old(self).var_scopes,
                        self.type_aliases == old(self).type_aliases,
                        self.functions == old(self).functions,
                        self.classes == old(self).classes,
                        self.type_vars == old(self).type_vars,
                        forall|k: int| 0 <= k < args@.len() ==> decreases_to!(*te => #[trigger] args@[k]),
                    decreases args@.len() - i,
                {
                    assert(decreases_to!(*te => args@[i as int]));
                    self.validate_type_ann(&args[i]);
                    i += 1;
                }
            },
            _ => {
                let resolved = self.resolve_type(te);
                if let Some(msg) = check_union_duplicates(&resolved) {
                    self.error(msg);
                }
            },
        }
    }

    fn validate_opt(&mut self, te: &Option<TypeExpr>)
        ensures
            keeps_errors(old(self).errors@, final(self).errors@),
            final(self).functions == old(self).functions,
            final(self).type_aliases == old(self).type_aliases,
            final(self).classes == old(self).classes,
            final(self).type_vars == old(self).type_vars,
    {
        if let Some(t) = te {
            self.validate_type_ann(t);
        }
    }

    /// Validate the annotated parameters, binding each to its type when `bind`.
    fn params_in_scope(&mut self, params: &Vec<ParamDef>, validate: bool)
        ensures
            keeps_errors(old(self).errors@, final(self).errors@),
            final(self).functions == old(self).functions,
            final(self).classes == old(self).classes,
            final(self).type_vars == old(self).type_vars,
            final(self).type_aliases == old(self).type_aliases,
            !validate ==> final(self).errors == old(self).errors,
            old(self).var_scopes@.len() == 0 ==> final(self).var_scopes@ == old(self).var_scopes@,
            old(self).var_scopes@.len() > 0 ==> {
                &&& final(self).var_scopes@.len() == old(self).var_scopes@.len()
                &&& final(self).var_scopes@.drop_last() == old(self).var_scopes@.drop_last()
                &&& forall|x: Seq<char>| #[trigger] opt_ty(lookup(final(self).var_scopes@.last()@, x)) == match last_param_ann(params@, x) {
                    Some(t) => Some(ty(t)),
                    None => opt_ty(lookup(old(self).var_scopes@.last()@, x)),
                }
            },
    {
        let mut i: usize = 0;
        while i < params.len()
            invariant
                i <= params@.len(),
                keeps_errors(old(self).errors@, self.errors@),
                !validate ==> self.errors == old(self).errors,
                self.functions == old(self).functions,
                self.classes == old(self).classes,
                self.type_vars == old(self).type_vars,
                self.type_aliases == old(self).type_aliases,
                old(self).var_scopes@.len() == 0 ==> self.var_scopes@ == old(self).var_scopes@,
                old(self).var_scopes@.len() > 0 ==> {
                    &&& self.var_scopes@.len() == old(self).var_scopes@.len()
                    &&& self.var_scopes@.drop_last() == old(self).var_scopes@.drop_last()
                    &&& forall|x: Seq<char>| #[trigger] opt_ty(lookup(self.var_scopes@.last()@, x)) == match last_param_ann(params@.take(i as int), x) {
                        Some(t) => Some(ty(t)),
                        None => opt_ty(lookup(old(self).var_scopes@.last()@, x)),
                    }
                },
            decreases params@.len() - i,
        {
            proof {
                assert(params@.take(i + 1).drop_last() =~= params@.take(i as int));
                assert(params@.take(i + 1).last() == params@[i as int]);
            }
            let ghost s0 = self.var_scopes@;
            if let Some(t) = &params[i].type_ann {
                if validate {
                    self.validate_type_ann(t);
                }
                let ghost s1 = self.var_scopes@;
                self.set_var(params[i].name.as_str(), copy_type(t));
                proof {
                    if old(self).var_scopes@.len() > 0 {
                        assert forall|x: Seq<char>| #[trigger] opt_ty(lookup(self.var_scopes@.last()@, x)) == match last_param_ann(
                            params@.take(i + 1),
                            x,
                        ) {
                            Some(t) => Some(ty(t)),
                            None => opt_ty(lookup(old(self).var_scopes@.last()@, x)),
                        } by {
                            if x != params@[i as int].name@ {
                                assert(lookup(self.var_scopes@.last()@, x) == lookup(s1.last()@, x));
                            }
                        }
                    }
                }
            }
            i += 1;
        }
        proof {
            assert(params@.take(params@.len() as int) =~= params@);
        }
    }

    fn check_stmts(&mut self, v: &Vec<Expr>, Ghost(parent): Ghost<Expr>)
        requires
            forall|i: int| 0 <= i < v@.len() ==> decreases_to!(parent => #[trigger] v@[i]),
        ensures
            keeps_errors(old(self).errors@, final(self).errors@),
            (forall|i: int| 0 <= i < v@.len() ==> #[trigger] v@[i] is Literal) ==> *final(self) == *old(self),
        decreases parent, 1nat,
    {
        let mut i: usize = 0;
        while i < v.len()
            invariant
                i <= v@.len(),
                keeps_errors(old(self).errors@, self.errors@),
                (forall|k: int| 0 <= k < v@.len() ==> #[trigger] v@[k] is Literal) ==> *self == *old(self),
                forall|k: int| 0 <= k < v@.len() ==> decreases_to!(parent => #[trigger] v@[k]),
            decreases v@.len() - i,
        {
            assert(decreases_to!(parent => v@[i as int]));
            self.check_expr(&v[i]);
            i += 1;
        }
    }

    fn check_scoped(&mut self, v: &Vec<Expr>, Ghost(parent): Ghost<Expr>)
        requires
            forall|i: int| 0 <= i < v@.len() ==> decreases_to!(parent => #[trigger] v@[i]),
        ensures
            keeps_errors(old(self).errors@, final(self).errors@),
        decreases parent, 2nat,
    {
        self.push_scope();
        self.check_stmts(v, Ghost(parent));
        self.pop_scope();
    }

    fn check_match_arm(&mut self, arm: &MatchArm, Ghost(parent): Ghost<Expr>)
        requires
            decreases_to!(parent => *arm),
        ensures
            keeps_errors(old(self).errors@, final(self).errors@),
        decreases parent, 2nat,
    {
        self.push_scope();
        if arm.patterns.len() == 1 {
            if let Pattern::Binding(name) = &arm.patterns[0] {
                self.set_var(name.as_str(), TypeExpr::Any);
            }
        }
        if let Some(guard) = &arm.guard {
            proof {
                assert(decreases_to!(*arm => arm.guard));
                assert(decreases_to!(arm.guard => **guard));
            }
            self.check_expr(guard);
        }
        proof {
            assert(decreases_to!(*arm => arm.body));
            lemma_exprs_below(parent, arm.body);
        }
        self.check_stmts(&arm.body, Ghost(parent));
        self.pop_scope();
    }

    fn check_args(&mut self, params: &Vec<ParamDef>, args: &Vec<CallArg>, fn_name: &str)
        ensures
            keeps_errors(old(self).errors@, final(self).errors@),
            (forall|k: int|
                0 <= k < params@.len() && k < args@.len() && (#[trigger] params@[k]).type_ann is Some ==> old(self).arg_fits(
                    params@[k].type_ann->Some_0,
                    args@[k].value,
                )) ==> final(self).errors@ == old(self).errors@,
            old(self).interfaces@.len() == 0 ==> forall|k: int|
                0 <= k < params@.len() && k < args@.len() && (#[trigger] params@[k]).type_ann is Some && (old(self).direct_type(
                    args@[k].value,
                ) matches Some(Some(at)) && old(self).return_mismatch_owed(at, params@[k].type_ann->Some_0)) ==> errors_hold(
                    final(self).errors@,
                    arg_mismatch_message(
                        params@[k].name@,
                        fn_name@,
                        ty(params@[k].type_ann->Some_0),
                        old(self).direct_type(args@[k].value)->Some_0->Some_0,
                    ),
                ),
    {
        let mut i: usize = 0;
        while i < params.len() && i < args.len()
            invariant
                i <= params@.len(),
                keeps_errors(old(self).errors@, self.errors@),
                self.type_aliases == old(self).type_aliases,
                self.var_scopes == old(self).var_scopes,
                self.classes == old(self).classes,
                self.type_vars == old(self).type_vars,
                self.current_class == old(self).current_class,
                self.interfaces == old(self).interfaces,
                (forall|k: int|
                    0 <= k < params@.len() && k < args@.len() && (#[trigger] params@[k]).type_ann is Some ==> old(self).arg_fits(
                        params@[k].type_ann->Some_0,
                        args@[k].value,
                    )) ==> self.errors@ == old(self).errors@,
                old(self).interfaces@.len() == 0 ==> forall|k: int|
                    0 <= k < i && k < args@.len() && (#[trigger] params@[k]).type_ann is Some && (old(self).direct_type(
                        args@[k].value,
                    ) matches Some(Some(at)) && old(self).return_mismatch_owed(at, params@[k].type_ann->Some_0)) ==> errors_hold(
                        self.errors@,
                        arg_mismatch_message(
                            params@[k].name@,
                            fn_name@,
                            ty(params@[k].type_ann->Some_0),
                            old(self).direct_type(args@[k].value)->Some_0->Some_0,
                        ),
                    ),
            decreases params@.len() - i,
        {
            let ghost e0 = self.errors@;
            let ghost owed = old(self).interfaces@.len() == 0 && params@[i as int].type_ann is Some && (old(self).direct_type(
                args@[i as int].value,
            ) matches Some(Some(at)) && old(self).return_mismatch_owed(at, params@[i as int].type_ann->Some_0));
            let ghost want = arg_mismatch_message(
                params@[i as int].name@,
                fn_name@,
                ty(params@[i as int].type_ann->Some_0),
                old(self).direct_type(args@[i as int].value)->Some_0->Some_0,
            );
            let param = &params[i];
            if let Some(te) = &param.type_ann {
                if let Some(actual) = self.infer_type(&args[i].value) {
                    if !self.types_compat(&actual, te, COMPAT_DEPTH) {
                        let ra = self.resolve_type(&actual);
                        let rt = self.resolve_type(te);
                        let detail = self.satisfies_interface(&ra, &rt, COMPAT_DEPTH);
                        let is_iface = self.interface_name_and_args(&rt).is_some();
                        let message = match detail {
                            Err(msg) if is_iface => msg,
                            _ => {
                                let mut m = String::from_str("argument '");
                                m.append(param.name.as_str());
                                m.append("' to '");
                                m.append(fn_name);
                                m.append("' expected ");
                                m.append(te_name(te).as_str());
                                m.append(", got ");
                                m.append(te_name(&actual).as_str());
                                m
                            },
                        };
                        proof {
                            if owed {
                                assert(!is_iface);
                                assert(message@ == want);
                            }
                        }
                        self.error(message);
                        proof {
                            if owed {
                                let last = self.errors@.len() - 1;
                                assert(self.errors@[last].message@ == want);
                                assert(errors_hold(self.errors@, want));
                            }
                        }
                    } else {
                        proof {
                            assert(!owed);
                        }
                    }
                } else {
                    proof {
                        assert(!owed);
                    }
                }
            } else {
                proof {
                    assert(!owed);
                }
            }
            proof {
                assert forall|k: int|
                    0 <= k < i && k < args@.len() && (#[trigger] params@[k]).type_ann is Some && (old(self).direct_type(
                        args@[k].value,
                    ) matches Some(Some(at)) && old(self).return_mismatch_owed(at, params@[k].type_ann->Some_0))
                    && old(self).interfaces@.len() == 0 implies errors_hold(
                    self.errors@,
                    arg_mismatch_message(
                        params@[k].name@,
                        fn_name@,
                        ty(params@[k].type_ann->Some_0),
                        old(self).direct_type(args@[k].value)->Some_0->Some_0,
                    ),
                ) by {
                    lemma_errors_hold_kept(
                        e0,
                        self.errors@,
                        arg_mismatch_message(
                            params@[k].name@,
                            fn_name@,
                            ty(params@[k].type_ann->Some_0),
                            old(self).direct_type(args@[k].value)->Some_0->Some_0,
                        ),
                    );
                }
            }
            i += 1;
        }
    }

    fn check_call(&mut self, callee: &Expr, args: &Vec<CallArg>, Ghost(parent): Ghost<Expr>)
        requires
            decreases_to!(parent => *callee),
            forall|i: int| 0 <= i < args@.len() ==> decreases_to!(parent => #[trigger] args@[i].value),
        ensures
            keeps_errors(old(self).errors@, final(self).errors@),
        decreases parent, 2nat,
    {
        let mut i: usize = 0;
        while i < args.len()
            invariant
                i <= args@.len(),
                keeps_errors(old(self).errors@, self.errors@),
                forall|k: int| 0 <= k < args@.len() ==> decreases_to!(parent => #[trigger] args@[k].value),
            decreases args@.len() - i,
        {
            assert(decreases_to!(parent => args@[i as int].value));
            self.check_expr(&args[i].value);
            i += 1;
        }
        match callee {
            Expr::Variable(name) => {
                if let Some(sig) = self.function_sig(name.as_str()) {
                    self.push_type_vars(&sig.type_params);
                    self.check_args(&sig.params, args, name.as_str());
                    self.pop_type_vars();
                }
            },
            Expr::Get { object, name: method_name, .. } => {
                proof {
                    assert(decreases_to!(*callee => **object));
                }
                self.check_expr(object);
                if str_is(method_name, "new") {
                    if let Expr::Variable(class_name) = &**object {
                        if let Some(tps) = self.class_type_params(class_name.as_str()) {
                            self.push_type_vars(&tps);
                            let mut i: usize = 0;
                            while i < args.len()
                                invariant
                                    i <= args@.len(),
                                    keeps_errors(old(self).errors@, self.errors@),
                                decreases args@.len() - i,
                            {
                                if let Some(fname) = &args[i].name {
                                    if let Some(te) = self.field_type(class_name.as_str(), fname.as_str()) {
                                        if let Some(actual) = self.infer_type(&args[i].value) {
                                            if !self.types_compat(&actual, &te, COMPAT_DEPTH) {
                                                self.error(field_mismatch(fname.as_str(), &te, &actual));
                                            }
                                        }
                                    }
                                }
                                i += 1;
                            }
                            self.pop_type_vars();
                        }
                    }
                } else if let Some(object_ty) = self.infer_type(object) {
                    if let Some(sig) = self.method_sig_for_type(&object_ty, method_name.as_str()) {
                        self.push_type_vars(&sig.type_params);
                        self.check_args(&sig.params, args, method_name.as_str());
                        self.pop_type_vars();
                    } else {
                        let resolved = self.resolve_type(&object_ty);
                        if self.interface_name_and_args(&resolved).is_some() {
                            let mut m = String::from_str("method '");
                            m.append(method_name.as_str());
                            m.append("' is not defined by interface ");
                            m.append(te_name(&object_ty).as_str());
                            self.error(m);
                        }
                    }
                }
            },
            _ => self.check_expr(callee),
        }
    }

    fn check_multi_assign(&mut self, names: &Vec<String>, values: &Vec<Expr>, Ghost(parent): Ghost<Expr>)
        requires
            forall|i: int| 0 <= i < values@.len() ==> decreases_to!(parent => #[trigger] values@[i]),
        ensures
            keeps_errors(old(self).errors@, final(self).errors@),
        decreases parent, 2nat,
    {
        if values.len() == 1 {
            let value = &values[0];
            assert(decreases_to!(parent => values@[0]));
            if let Expr::ListLit(elems) = value {
                let mut i: usize = 0;
                while i < names.len() && i < elems.len()
                    invariant
                        i <= names@.len(),
                        keeps_errors(old(self).errors@, self.errors@),
                    decreases names@.len() - i,
                {
                    if let Some(t) = self.infer_type(&elems[i]) {
                        self.set_var(names[i].as_str(), t);
                    }
                    i += 1;
                }
                self.check_expr(value);
            } else if let Some(t) = self.infer_type(value) {
                let mut elem: Option<TypeExpr> = None;
                if let TypeExpr::Apply(list_name, args) = &t {
                    if str_is(list_name, "List") && args.len() == 1 {
                        elem = Some(copy_type(&args[0]));
                    }
                }
                let bound = match elem {
                    Some(e) => e,
                    None => t,
                };
                let mut i: usize = 0;
                while i < names.len()
                    invariant
                        i <= names@.len(),
                        keeps_errors(old(self).errors@, self.errors@),
                    decreases names@.len() - i,
                {
                    self.set_var(names[i].as_str(), copy_type(&bound));
                    i += 1;
                }
                self.check_expr(value);
            } else {
                self.check_expr(value);
            }
        } else {
            let mut i: usize = 0;
            while i < names.len() && i < values.len()
                invariant
                    i <= names@.len(),
                    keeps_errors(old(self).errors@, self.errors@),
                    forall|k: int| 0 <= k < values@.len() ==> decreases_to!(parent => #[trigger] values@[k]),
                decreases names@.len() - i,
            {
                assert(decreases_to!(parent => values@[i as int]));
                if let Some(t) = self.infer_type(&values[i]) {
                    self.set_var(names[i].as_str(), t);
                }
                self.check_expr(&values[i]);
                i += 1;
            }
            let mut i: usize = names.len();
            while i < values.len()
                invariant
                    keeps_errors(old(self).errors@, self.errors@),
                    forall|k: int| 0 <= k < values@.len() ==> decreases_to!(parent => #[trigger] values@[k]),
                decreases values@.len() - i,
            {
                assert(decreases_to!(parent => values@[i as int]));
                self.check_expr(&values[i]);
                i += 1;
            }
        }
    }
}


impl TypeChecker {
    /// Check one statement or expression, and everything inside it.
    fn check_expr(&mut self, expr: &Expr)
        ensures
            keeps_errors(old(self).errors@, final(self).errors@),
            *expr is Literal ==> *final(self) == *old(self),
            TypeChecker::literal_mismatch_reported(old(self), final(self), *expr),
            TypeChecker::annotation_recorded(final(self), *expr),
            (*expr matches Expr::Return(inner) && (old(self).current_return_type matches Some(rt) && (old(self).direct_type(
                *inner,
            ) matches Some(Some(at)) && old(self).return_mismatch_owed(at, rt)))) ==> ({
                let rt = old(self).current_return_type->Some_0;
                let at = old(self).direct_type(*expr->Return_0)->Some_0->Some_0;
                &&& final(self).errors@.len() > old(self).errors@.len()
                &&& final(self).errors@[old(self).errors@.len() as int].message@ == "return value expected "@ + ty_name(ty(rt))
                    + ", got "@ + ty_name(at)
            }),
            (*expr matches Expr::Return(inner) && *inner is Literal && (old(self).current_return_type matches Some(rt)
                && old(self).return_fits(literal_type(inner->Literal_0), rt))) ==> final(self).errors@ == old(self).errors@,
        decreases *expr, 3nat,
    {
        match expr {
            Expr::Return(inner) => {
                if let Some(rt) = copy_opt_type(&self.current_return_type) {
                    proof {
                        lemma_resolved_same(self.type_aliases@, rt, self.current_return_type->Some_0, self.type_aliases@.len());
                    }
                    if let Some(actual) = self.infer_type(inner) {
                        if !self.types_compat(&actual, &rt, COMPAT_DEPTH) {
                            self.error(return_mismatch(&rt, &actual));
                        }
                    }
                }
                self.check_expr(inner);
            },
            Expr::While { condition, body } => {
                self.check_expr(condition);
                proof {
                    lemma_exprs_below(*expr, *body);
                }
                self.check_scoped(body, Ghost(*expr));
            },
            Expr::Lambda { body, .. } => {
                proof {
                    lemma_exprs_below(*expr, *body);
                }
                self.check_scoped(body, Ghost(*expr));
            },
            Expr::Raise(inner) => self.check_expr(inner),
            Expr::Break(inner) => self.check_expr(inner),
            Expr::Next(inner) => self.check_expr(inner),
            Expr::MultiAssign { names, values } => {
                proof {
                    lemma_exprs_below(*expr, *values);
                }
                self.check_multi_assign(names, values, Ghost(*expr));
            },
            Expr::Call { callee, args, .. } => {
                proof {
                    assert forall|i: int| 0 <= i < args@.len() implies decreases_to!(*expr => #[trigger] args@[i].value) by {
                        assert(decreases_to!(*expr => *args));
                        assert(decreases_to!(*args => args@));
                        assert(decreases_to!(args@ => args@[i]));
                        assert(decreases_to!(args@[i] => args@[i].value));
                    }
                }
                self.check_call(callee, args, Ghost(*expr));
            },
            Expr::Assign { name, value } => {
                if let Some(t) = self.infer_type(value) {
                    self.set_var(name.as_str(), t);
                }
                self.check_expr(value);
            },
            Expr::Binary { left, op, right } => {
                self.current_line = op.line;
                self.check_expr(left);
                self.check_expr(right);
            },
            Expr::Unary { op, right } => {
                self.current_line = op.line;
                self.check_expr(right);
            },
            Expr::Get { object, .. } => self.check_expr(object),
            Expr::SafeGet { object, .. } => self.check_expr(object),
            Expr::SetAttr { object, value, name } => {
                if let Some(TypeExpr::Named(class_name)) = self.infer_type(object) {
                    if let Some(te) = self.field_type(class_name.as_str(), name.as_str()) {
                        if let Some(actual) = self.infer_type(value) {
                            if !self.types_compat(&actual, &te, COMPAT_DEPTH) {
                                self.error(field_mismatch(name.as_str(), &te, &actual));
                            }
                        }
                    }
                }
                self.check_expr(object);
                self.check_expr(value);
            },
            Expr::Index { object, index } => {
                self.check_expr(object);
                self.check_expr(index);
            },
            Expr::IndexSet { object, index, value } => {
                self.check_expr(object);
                self.check_expr(index);
                self.check_expr(value);
            },
            Expr::Range { from, to } => {
                self.check_expr(from);
                self.check_expr(to);
            },
            Expr::ListLit(elems) => {
                proof {
                    lemma_exprs_below(*expr, *elems);
                }
                self.check_stmts(elems, Ghost(*expr));
            },
            Expr::MapLit(pairs) => {
                proof {
                    assert(decreases_to!(*expr => *pairs));
                    assert forall|k: int| 0 <= k < pairs@.len() implies decreases_to!(*expr => #[trigger] pairs@[k].1) by {
                        assert(decreases_to!(*pairs => pairs@));
                        assert(decreases_to!(pairs@ => pairs@[k]));
                        assert(decreases_to!(pairs@[k] => pairs@[k].1));
                    }
                }
                let mut i: usize = 0;
                while i < pairs.len()
                    invariant
                        i <= pairs@.len(),
                        keeps_errors(old(self).errors@, self.errors@),
                        forall|k: int| 0 <= k < pairs@.len() ==> decreases_to!(*expr => #[trigger] pairs@[k].1),
                    decreases pairs@.len() - i,
                {
                    assert(decreases_to!(*expr => pairs@[i as int].1));
                    self.check_expr(&pairs[i].1);
                    i += 1;
                }
            },
            Expr::Grouping(inner) => self.check_expr(inner),
            Expr::If { condition, then_branch, else_branch } => {
                self.check_expr(condition);
                proof {
                    lemma_exprs_below(*expr, *then_branch);
                }
                self.check_scoped(then_branch, Ghost(*expr));
                if let Some(branch) = else_branch {
                    proof {
                        assert(decreases_to!(*expr => *else_branch));
                        assert(decreases_to!(*else_branch => *branch));
                        lemma_exprs_below(*expr, *branch);
                    }
                    self.check_scoped(branch, Ghost(*expr));
                }
            },
            Expr::Begin { body, rescue_clauses, else_body, ensure_body } => {
                proof {
                    lemma_exprs_below(*expr, *body);
                    lemma_exprs_below(*expr, *else_body);
                    lemma_exprs_below(*expr, *ensure_body);
                }
                self.check_stmts(body, Ghost(*expr));
                let mut i: usize = 0;
                while i < rescue_clauses.len()
                    invariant
                        i <= rescue_clauses@.len(),
                        keeps_errors(old(self).errors@, self.errors@),
                        *expr matches Expr::Begin { rescue_clauses: rc, .. } && rc == *rescue_clauses,
                    decreases rescue_clauses@.len() - i,
                {
                    proof {
                        assert(decreases_to!(*expr => *rescue_clauses));
                        assert(decreases_to!(*rescue_clauses => rescue_clauses@));
                        assert(decreases_to!(rescue_clauses@ => rescue_clauses@[i as int]));
                        assert(decreases_to!(rescue_clauses@[i as int] => rescue_clauses@[i as int].body));
                        lemma_exprs_below(*expr, rescue_clauses@[i as int].body);
                    }
                    self.check_stmts(&rescue_clauses[i].body, Ghost(*expr));
                    i += 1;
                }
                self.check_stmts(else_body, Ghost(*expr));
                self.check_stmts(ensure_body, Ghost(*expr));
            },
            Expr::Print(inner) => self.check_expr(inner),
            Expr::Class { .. } => self.check_class(expr),
            Expr::Interface { type_params, methods, .. } => {
                self.push_type_vars(type_params);
                let mut i: usize = 0;
                while i < methods.len()
                    invariant
                        i <= methods@.len(),
                        keeps_errors(old(self).errors@, self.errors@),
                    decreases methods@.len() - i,
                {
                    let m = &methods[i];
                    self.push_type_vars(&m.type_params);
                    let mut j: usize = 0;
                    while j < m.params.len()
                        invariant
                            j <= m.params@.len(),
                            keeps_errors(old(self).errors@, self.errors@),
                        decreases m.params@.len() - j,
                    {
                        self.validate_opt(&m.params[j].type_ann);
                        j += 1;
                    }
                    self.validate_opt(&m.return_type);
                    self.pop_type_vars();
                    i += 1;
                }
                self.pop_type_vars();
            },
            Expr::Function { .. } => self.check_function(expr),
            Expr::Super { args, .. } => {
                let mut i: usize = 0;
                while i < args.len()
                    invariant
                        i <= args@.len(),
                        keeps_errors(old(self).errors@, self.errors@),
                        *expr matches Expr::Super { args: a, .. } && a == *args,
                    decreases args@.len() - i,
                {
                    proof {
                        assert(decreases_to!(*expr => *args));
                        assert(decreases_to!(*args => args@));
                        assert(decreases_to!(args@ => args@[i as int]));
                        assert(decreases_to!(args@[i as int] => args@[i as int].value));
                    }
                    self.check_expr(&args[i].value);
                    i += 1;
                }
            },
            Expr::Match { scrutinee, arms } => {
                self.check_expr(scrutinee);
                let mut i: usize = 0;
                while i < arms.len()
                    invariant
                        i <= arms@.len(),
                        keeps_errors(old(self).errors@, self.errors@),
                        *expr matches Expr::Match { arms: a, .. } && a == *arms,
                    decreases arms@.len() - i,
                {
                    proof {
                        assert(decreases_to!(*expr => *arms));
                        assert(decreases_to!(*arms => arms@));
                        assert(decreases_to!(arms@ => arms@[i as int]));
                    }
                    self.check_match_arm(&arms[i], Ghost(*expr));
                    i += 1;
                }
            },
            _ => {},
        }
    }

    /// Check a top-level function: record its signature, check its body in a
    /// scope holding its parameters, compare an annotated return type with
    /// the type of its last statement, or record that type when there is no
    /// annotation.
    fn check_function(&mut self, expr: &Expr)
        requires
            expr is Function,
        ensures
            keeps_errors(old(self).errors@, final(self).errors@),
            TypeChecker::literal_mismatch_reported(old(self), final(self), *expr),
            TypeChecker::annotation_recorded(final(self), *expr),
        decreases *expr, 2nat,
    {
        if let Expr::Function { name, type_params, params, return_type, body } = expr {
            let ghost s0 = *self;
            assoc_insert(&mut self.functions, name.clone(), sig_of(type_params, params, return_type));
            let saved = copy_opt_type(&self.current_return_type);
            self.validate_opt(return_type);
            self.current_return_type = copy_opt_type(return_type);
            self.push_scope();
            let ghost s1 = *self;
            self.push_type_vars(type_params);
            self.params_in_scope(params, true);
            proof {
                lemma_exprs_below(*expr, *body);
            }
            let ghost s2 = *self;
            self.check_stmts(body, Ghost(*expr));
            let ghost e_mid = self.errors@;
            match return_type {
                Some(rt) => {
                    if let Some(last) = last_of(body) {
                        if let Some(actual) = self.infer_type(last) {
                            proof {
                                if (forall|i: int| 0 <= i < body@.len() ==> #[trigger] body@[i] is Literal) && (s0.direct_type(
                                    body@.last(),
                                ) matches Some(Some(at)) && s0.fn_return_mismatch_owed(type_params@, at, *rt)) {
                                    let at = s0.direct_type(body@.last())->Some_0->Some_0;
                                    lemma_tv_push(&s1, &s2, type_params@, at);
                                    lemma_tv_push(&s1, &s2, type_params@, ty(*rt));
                                    assert(*self == s2);
                                }
                            }
                            if !self.types_compat(&actual, rt, COMPAT_DEPTH) {
                                self.error(return_mismatch(rt, &actual));
                                assert(self.errors@[e_mid.len() as int] == self.errors@.last());
                            }
                        }
                    }
                },
                None => {
                    if let Some(last) = last_of(body) {
                        if let Some(inferred) = self.infer_type(last) {
                            let ghost f0 = self.functions@;
                            let found = self.set_fn_return(name.as_str(), inferred);
                            proof {
                                if found {
                                    let i = key_index(f0, name@)->Some_0;
                                    lemma_key_index_bounds(f0, name@);
                                    lemma_key_index_same(f0, self.functions@, name@, i);
                                }
                            }
                        }
                    }
                },
            }
            self.pop_type_vars();
            self.pop_scope();
            self.current_return_type = saved;
        }
    }

    /// Check a class: abstract methods only in abstract classes, each method
    /// body as a function body, the constants, the abstract methods a
    /// concrete class still owes, and the nested classes.
    fn check_class(&mut self, expr: &Expr)
        requires
            expr is Class,
        ensures
            keeps_errors(old(self).errors@, final(self).errors@),
        decreases *expr, 2nat,
    {
        if let Expr::Class { name, type_params, is_abstract, is_module, methods, constants, nested, .. } = expr {
            let saved_class = self.current_class.clone();
            self.current_class = Some(name.clone());
            self.push_type_vars(type_params);
            if !*is_abstract && !*is_module {
                let mut i: usize = 0;
                while i < methods.len()
                    invariant
                        i <= methods@.len(),
                        keeps_errors(old(self).errors@, self.errors@),
                    decreases methods@.len() - i,
                {
                    let m = &methods[i];
                    if m.is_abstract && !m.class_method {
                        let mut msg = String::from_str("abstract method '");
                        msg.append(m.name.as_str());
                        msg.append("' is only allowed in an abstract class");
                        self.error(msg);
                    }
                    i += 1;
                }
            }
            proof {
                lemma_methods_below(*expr, *methods);
            }
            let mut i: usize = 0;
            while i < methods.len()
                invariant
                    i <= methods@.len(),
                    keeps_errors(old(self).errors@, self.errors@),
                    forall|a: int, b: int|
                        0 <= a < methods@.len() && 0 <= b < methods@[a].body@.len() ==> decreases_to!(*expr => #[trigger] methods@[a].body@[b]),
                decreases methods@.len() - i,
            {
                let method = &methods[i];
                if method.is_abstract {
                    self.validate_opt(&method.return_type);
                    self.push_type_vars(&method.type_params);
                    let mut j: usize = 0;
                    while j < method.params.len()
                        invariant
                            j <= method.params@.len(),
                            keeps_errors(old(self).errors@, self.errors@),
                        decreases method.params@.len() - j,
                    {
                        self.validate_opt(&method.params[j].type_ann);
                        j += 1;
                    }
                    self.pop_type_vars();
                } else {
                    let saved = copy_opt_type(&self.current_return_type);
                    self.validate_opt(&method.return_type);
                    self.current_return_type = copy_opt_type(&method.return_type);
                    self.push_scope();
                    self.push_type_vars(&method.type_params);
                    self.params_in_scope(&method.params, true);
                    proof {
                        assert forall|b: int| 0 <= b < method.body@.len() implies decreases_to!(*expr => #[trigger] method.body@[b]) by {
                            assert(decreases_to!(*expr => methods@[i as int].body@[b]));
                        }
                    }
                    self.check_stmts(&method.body, Ghost(*expr));
                    match &method.return_type {
                        Some(rt) => {
                            if let Some(last) = last_of(&method.body) {
                                if let Some(actual) = self.infer_type(last) {
                                    if !self.types_compat(&actual, rt, COMPAT_DEPTH) {
                                        self.error(return_mismatch(rt, &actual));
                                    }
                                }
                            }
                        },
                        None => {
                            if let Some(last) = last_of(&method.body) {
                                if let Some(inferred) = self.infer_type(last) {
                                    let _ = self.set_method_return(name.as_str(), method.name.as_str(), inferred);
                                }
                            }
                        },
                    }
                    self.pop_type_vars();
                    self.pop_scope();
                    self.current_return_type = saved;
                }
                i += 1;
            }
            let mut i: usize = 0;
            while i < constants.len()
                invariant
                    i <= constants@.len(),
                    keeps_errors(old(self).errors@, self.errors@),
                    *expr matches Expr::Class { constants: c, .. } && c == *constants,
                decreases constants@.len() - i,
            {
                proof {
                    assert(decreases_to!(*expr => *constants));
                    assert(decreases_to!(*constants => constants@));
                    assert(decreases_to!(constants@ => constants@[i as int]));
                    assert(decreases_to!(constants@[i as int] => constants@[i as int].1));
                }
                self.check_expr(&constants[i].1);
                i += 1;
            }
            if !*is_abstract && !*is_module {
                let pending = self.abstract_methods_after_class(name.as_str());
                let mut i: usize = 0;
                while i < pending.len()
                    invariant
                        i <= pending@.len(),
                        keeps_errors(old(self).errors@, self.errors@),
                    decreases pending@.len() - i,
                {
                    let mut msg = String::from_str("class '");
                    msg.append(name.as_str());
                    msg.append("' must implement abstract method: ");
                    msg.append(pending[i].as_str());
                    self.error(msg);
                    i += 1;
                }
            }
            proof {
                lemma_exprs_below(*expr, *nested);
            }
            self.check_stmts(nested, Ghost(*expr));
            self.pop_type_vars();
            self.current_class = saved_class;
        }
    }

    /// Infer the return type of an unannotated function or method whose type
    /// is still unknown; whether a type was newly recorded.
    fn propagate_return_type(&mut self, expr: &Expr) -> (progress: bool)
        ensures
            final(self).errors == old(self).errors,
            match *expr {
                Expr::Function { name, return_type, .. } => {
                    &&& (return_type is Some || (lookup(old(self).functions@, name@) matches Some(f) && f.return_type is Some))
                        ==> !progress && *final(self) == *old(self)
                    &&& progress ==> (lookup(final(self).functions@, name@) matches Some(f) && f.return_type is Some)
                },
                Expr::Class { .. } => true,
                _ => !progress && *final(self) == *old(self),
            },
    {
        match expr {
            Expr::Function { name, type_params, params, return_type, body } => {
                if return_type.is_some() {
                    return false;
                }
                if self.fn_return_known(name.as_str()) {
                    return false;
                }
                self.push_type_vars(type_params);
                self.push_scope();
                self.params_in_scope(params, false);
                let inferred = match last_of(body) {
                    Some(e) => self.infer_type(e),
                    None => None,
                };
                self.pop_scope();
                self.pop_type_vars();
                match inferred {
                    Some(t) => {
                        let ghost f0 = self.functions@;
                        let found = self.set_fn_return(name.as_str(), t);
                        proof {
                            if found {
                                let i = key_index(f0, name@)->Some_0;
                                lemma_key_index_bounds(f0, name@);
                                lemma_key_index_same(f0, self.functions@, name@, i);
                            }
                        }
                        found
                    },
                    None => false,
                }
            },
            Expr::Class { name, type_params, methods, .. } => {
                let mut progress = false;
                let saved_class = self.current_class.clone();
                self.current_class = Some(name.clone());
                self.push_type_vars(type_params);
                let mut i: usize = 0;
                while i < methods.len()
                    invariant
                        i <= methods@.len(),
                        self.errors == old(self).errors,
                    decreases methods@.len() - i,
                {
                    let method = &methods[i];
                    if !method.is_abstract && method.return_type.is_none()
                        && !self.method_return_known(name.as_str(), method.name.as_str()) {
                        self.push_type_vars(&method.type_params);
                        self.push_scope();
                        self.params_in_scope(&method.params, false);
                        let inferred = match last_of(&method.body) {
                            Some(e) => self.infer_type(e),
                            None => None,
                        };
                        self.pop_scope();
                        self.pop_type_vars();
                        if let Some(t) = inferred {
                            if self.set_method_return(name.as_str(), method.name.as_str(), t) {
                                progress = true;
                            }
                        }
                    }
                    i += 1;
                }
                self.pop_type_vars();
                self.current_class = saved_class;
                progress
            },
            _ => false,
        }
    }

    fn has_error_message(&self, msg: &String) -> (r: bool)
        ensures
            r == exists|i: int| 0 <= i < self.errors@.len() && (#[trigger] self.errors@[i]).message@ == msg@,
    {
        let mut i: usize = 0;
        while i < self.errors.len()
            invariant
                i <= self.errors@.len(),
                forall|k: int| 0 <= k < i ==> (#[trigger] self.errors@[k]).message@ != msg@,
            decreases self.errors@.len() - i,
        {
            if self.errors[i].message == *msg {
                return true;
            }
            i += 1;
        }
        false
    }

    /// Compare an annotated return type with the type now inferred for the
    /// last statement of `body`; report a mismatch not reported before.
    fn verify_body_return(&mut self, type_params: &Vec<String>, params: &Vec<ParamDef>, rt: &TypeExpr, body: &Vec<Expr>)
        ensures
            final(self).functions == old(self).functions,
            keeps_errors(old(self).errors@, final(self).errors@),
            fresh_errors(old(self).errors@, final(self).errors@),
            final(self).errors@.len() <= old(self).errors@.len() + 1,
            body@.len() == 0 ==> final(self).errors == old(self).errors,
            final(self).errors@.len() == old(self).errors@.len() + 1 ==> exists|t: TyView| #![trigger ty_name(t)]
                final(self).errors@.last().message@ == "return value expected "@ + ty_name(ty(*rt)) + ", got "@ + ty_name(t),
    {
        self.push_type_vars(type_params);
        self.push_scope();
        self.params_in_scope(params, false);
        if let Some(last) = last_of(body) {
            if let Some(actual) = self.infer_type(last) {
                if !self.types_compat(&actual, rt, COMPAT_DEPTH) {
                    let msg = return_mismatch(rt, &actual);
                    if !self.has_error_message(&msg) {
                        let ghost e0 = self.errors@;
                        self.error(msg);
                        proof {
                            assert(self.errors@.last() == self.errors@[e0.len() as int]);
                        }
                    }
                }
            }
        }
        self.pop_scope();
        self.pop_type_vars();
    }

    /// Re-check annotated return types once more return types are known.
    fn verify_annotated_return_types(&mut self, expr: &Expr)
        ensures
            final(self).functions == old(self).functions,
            keeps_errors(old(self).errors@, final(self).errors@),
            fresh_errors(old(self).errors@, final(self).errors@),
    {
        match expr {
            Expr::Function { type_params, params, return_type: Some(rt), body, .. } => {
                self.verify_body_return(type_params, params, rt, body);
            },
            Expr::Class { name, type_params, methods, .. } => {
                let saved_class = self.current_class.clone();
                self.current_class = Some(name.clone());
                self.push_type_vars(type_params);
                let mut i: usize = 0;
                while i < methods.len()
                    invariant
                        i <= methods@.len(),
                        keeps_errors(old(self).errors@, self.errors@),
                        fresh_errors(old(self).errors@, self.errors@),
                        self.functions == old(self).functions,
                    decreases methods@.len() - i,
                {
                    let method = &methods[i];
                    if !method.is_abstract {
                        if let Some(rt) = &method.return_type {
                            let ghost e0 = self.errors@;
                            self.verify_body_return(&method.type_params, &method.params, rt, &method.body);
                            proof {
                                lemma_fresh_trans(old(self).errors@, e0, self.errors@);
                            }
                        }
                    }
                    i += 1;
                }
                self.pop_type_vars();
                self.current_class = saved_class;
            },
            _ => {},
        }
    }

    fn any_unresolved(&self) -> (r: bool)
        ensures
            r == ((exists|i: int| 0 <= i < self.functions@.len() && (#[trigger] self.functions@[i]).1.return_type is None)
                || exists|i: int, j: int|
                0 <= i < self.classes@.len() && 0 <= j < self.classes@[i].1.methods@.len()
                    && (#[trigger] self.classes@[i].1.methods@[j]).1.return_type is None),
    {
        let mut i: usize = 0;
        while i < self.functions.len()
            invariant
                i <= self.functions@.len(),
                forall|k: int| 0 <= k < i ==> (#[trigger] self.functions@[k]).1.return_type is Some,
            decreases self.functions@.len() - i,
        {
            if self.functions[i].1.return_type.is_none() {
                return true;
            }
            i += 1;
        }
        let mut i: usize = 0;
        while i < self.classes.len()
            invariant
                i <= self.classes@.len(),
                forall|k: int| 0 <= k < self.functions@.len() ==> (#[trigger] self.functions@[k]).1.return_type is Some,
                forall|a: int, j: int|
                    0 <= a < i && 0 <= j < self.classes@[a].1.methods@.len() ==> (#[trigger] self.classes@[a].1.methods@[j]).1.return_type
                        is Some,
            decreases self.classes@.len() - i,
        {
            let ms = &self.classes[i].1.methods;
            let mut j: usize = 0;
            while j < ms.len()
                invariant
                    j <= ms@.len(),
                    i < self.classes@.len(),
                    ms@ == self.classes@[i as int].1.methods@,
                    forall|b: int| 0 <= b < j ==> (#[trigger] ms@[b]).1.return_type is Some,
                decreases ms@.len() - j,
            {
                if ms[j].1.return_type.is_none() {
                    assert(self.classes@[i as int].1.methods@[j as int].1.return_type is None);
                    return true;
                }
                j += 1;
            }
            i += 1;
        }
        false
    }

    /// The number of function and method signatures, saturating.
    fn signature_count(&self) -> (n: usize)
        ensures
            n == saturated(self.functions@.len() + method_total(self.classes@)),
    {
        let mut n: usize = self.functions.len();
        let mut i: usize = 0;
        while i < self.classes.len()
            invariant
                i <= self.classes@.len(),
                n == saturated(self.functions@.len() + method_total(self.classes@.take(i as int))),
            decreases self.classes@.len() - i,
        {
            proof {
                assert(self.classes@.take(i + 1).drop_last() =~= self.classes@.take(i as int));
            }
            n = n.saturating_add(self.classes[i].1.methods.len());
            i += 1;
        }
        proof {
            assert(self.classes@.take(self.classes@.len() as int) =~= self.classes@);
        }
        n
    }

    /// One pass of return-type propagation over `exprs`, stopping at the
    /// first that makes progress.
    fn propagate_once(&mut self, exprs: &[Expr]) -> (progress: bool)
        ensures
            final(self).errors == old(self).errors,
            progress ==> exists|i: int| 0 <= i < exprs@.len() && (#[trigger] exprs@[i] is Function || exprs@[i] is Class),
            (forall|i: int| 0 <= i < exprs@.len() ==> !(#[trigger] exprs@[i] is Function || exprs@[i] is Class)) ==> !progress
                && *final(self) == *old(self),
            (forall|i: int| 0 <= i < exprs@.len() ==> #[trigger] exprs@[i] matches Expr::Function { return_type: Some(_), .. })
                ==> !progress && *final(self) == *old(self),
            (forall|i: int| 0 <= i < exprs@.len() ==> fn_known(old(self).functions@, #[trigger] exprs@[i])) ==> !progress && *final(self) == *old(self),
    {
        let mut i: usize = 0;
        while i < exprs.len()
            invariant
                i <= exprs@.len(),
                self.errors == old(self).errors,
                (forall|k: int| 0 <= k < i ==> !(#[trigger] exprs@[k] is Function || exprs@[k] is Class)) ==> *self == *old(self),
                (forall|k: int| 0 <= k < exprs@.len() ==> #[trigger] exprs@[k] matches Expr::Function { return_type: Some(_), .. })
                    ==> *self == *old(self),
                (forall|k: int| 0 <= k < exprs@.len() ==> fn_known(old(self).functions@, #[trigger] exprs@[k])) ==> *self == *old(self),
            decreases exprs@.len() - i,
        {
            if self.propagate_return_type(&exprs[i]) {
                assert(exprs@[i as int] is Function || exprs@[i as int] is Class);
                return true;
            }
            i += 1;
        }
        false
    }

    fn into_checked_types(&self) -> (r: CheckedTypes)
        ensures
            r.function_returns@.len() == self.functions@.len(),
            forall|x: Seq<char>| #[trigger] key_index(r.function_returns@, x) == key_index(self.functions@, x),
            forall|i: int| 0 <= i < self.functions@.len() ==> (#[trigger] r.function_returns@[i]).0 == self.functions@[i].0
                && opt_ty(r.function_returns@[i].1) == opt_ty(self.functions@[i].1.return_type),
            r.class_method_returns@.len() == self.classes@.len(),
            r.class_constant_types@.len() == self.classes@.len(),
            forall|i: int| 0 <= i < self.classes@.len() ==> {
                &&& (#[trigger] r.class_method_returns@[i]).0 == self.classes@[i].0
                &&& returns_of(r.class_method_returns@[i].1@, self.classes@[i].1.methods@)
                &&& r.class_constant_types@[i].0 == self.classes@[i].0
                &&& types_of(r.class_constant_types@[i].1@, self.classes@[i].1.constants@)
            },
    {
        let mut function_returns: Vec<(String, Option<TypeExpr>)> = Vec::new();
        let mut i: usize = 0;
        while i < self.functions.len()
            invariant
                i <= self.functions@.len(),
                function_returns@.len() == i,
                forall|k: int| 0 <= k < i ==> (#[trigger] function_returns@[k]).0 == self.functions@[k].0
                    && opt_ty(function_returns@[k].1) == opt_ty(self.functions@[k].1.return_type),
            decreases self.functions@.len() - i,
        {
            function_returns.push((self.functions[i].0.clone(), copy_opt_type(&self.functions[i].1.return_type)));
            i += 1;
        }
        let mut class_method_returns: Vec<(String, Vec<(String, Option<TypeExpr>)>)> = Vec::new();
        let mut class_constant_types: Vec<(String, Vec<(String, TypeExpr)>)> = Vec::new();
        let mut i: usize = 0;
        while i < self.classes.len()
            invariant
                i <= self.classes@.len(),
                function_returns@.len() == self.functions@.len(),
                forall|k: int| 0 <= k < self.functions@.len() ==> (#[trigger] function_returns@[k]).0 == self.functions@[k].0
                    && opt_ty(function_returns@[k].1) == opt_ty(self.functions@[k].1.return_type),
                class_method_returns@.len() == i,
                class_constant_types@.len() == i,
                forall|k: int| 0 <= k < i ==> {
                    &&& (#[trigger] class_method_returns@[k]).0 == self.classes@[k].0
                    &&& returns_of(class_method_returns@[k].1@, self.classes@[k].1.methods@)
                    &&& class_constant_types@[k].0 == self.classes@[k].0
                    &&& types_of(class_constant_types@[k].1@, self.classes@[k].1.constants@)
                },
            decreases self.classes@.len() - i,
        {
            let c = &self.classes[i].1;
            let mut ms: Vec<(String, Option<TypeExpr>)> = Vec::new();
            let mut j: usize = 0;
            while j < c.methods.len()
                invariant
                    j <= c.methods@.len(),
                    ms@.len() == j,
                    forall|k: int| 0 <= k < j ==> (#[trigger] ms@[k]).0 == c.methods@[k].0 && opt_ty(ms@[k].1) == opt_ty(c.methods@[k].1.return_type),
                decreases c.methods@.len() - j,
            {
                ms.push((c.methods[j].0.clone(), copy_opt_type(&c.methods[j].1.return_type)));
                j += 1;
            }
            let mut cs: Vec<(String, TypeExpr)> = Vec::new();
            let mut j: usize = 0;
            while j < c.constants.len()
                invariant
                    j <= c.constants@.len(),
                    cs@.len() == j,
                    forall|k: int| 0 <= k < j ==> (#[trigger] cs@[k]).0 == c.constants@[k].0 && ty(cs@[k].1) == ty(c.constants@[k].1),
                decreases c.constants@.len() - j,
            {
                cs.push((c.constants[j].0.clone(), copy_type(&c.constants[j].1)));
                j += 1;
            }
            class_method_returns.push((self.classes[i].0.clone(), ms));
            class_constant_types.push((self.classes[i].0.clone(), cs));
            i += 1;
        }
        proof {
            lemma_same_keys(function_returns@, self.functions@);
        }
        CheckedTypes { function_returns, class_method_returns, class_constant_types }
    }

    /// Check a program: collect every signature, check every statement, then
    /// infer the return types left unknown (a second, lenient round lets
    /// mutually recursive functions settle on a base case) and re-check the
    /// annotated returns against them.  The errors come in the order found.
    pub fn check_info(exprs: &[Expr]) -> (info: TypeCheckInfo)
        ensures
            exprs@.len() == 0 ==> info.errors@.len() == 0,
            exprs@.len() == 1 && lone_literal_return_mismatch(exprs@[0]) ==> errors_hold(info.errors@, literal_return_message(exprs@[0])),
            exprs@.len() == 1 && lone_literal_fn(exprs@[0]) ==> annotation_in_types(info.types, exprs@[0]),
    {
        let ghost lone = exprs@.len() == 1 && lone_literal_return_mismatch(exprs@[0]);
        let ghost annot = exprs@.len() == 1 && lone_literal_fn(exprs@[0]);
        let ghost msg = if exprs@.len() > 0 {
            literal_return_message(exprs@[0])
        } else {
            Seq::<char>::empty()
        };
        let mut tc = TypeChecker::new();
        let mut i: usize = 0;
        while i < exprs.len()
            invariant
                i <= exprs@.len(),
                tc.errors@.len() == 0,
                lone == (exprs@.len() == 1 && lone_literal_return_mismatch(exprs@[0])),
                annot == (exprs@.len() == 1 && lone_literal_fn(exprs@[0])),
                lone ==> msg == literal_return_message(exprs@[0]),
                lone ==> exprs@.len() == 1 && exprs@[0] is Function && tc.type_aliases@.len() == 0 && tc.classes@.len() == 0
                    && tc.type_vars@.len() == 0,
            decreases exprs@.len() - i,
        {
            tc.collect_def(&exprs[i]);
            i += 1;
        }
        let mut i: usize = 0;
        while i < exprs.len()
            invariant
                i <= exprs@.len(),
                exprs@.len() == 0 ==> tc.errors@.len() == 0,
                lone == (exprs@.len() == 1 && lone_literal_return_mismatch(exprs@[0])),
                annot == (exprs@.len() == 1 && lone_literal_fn(exprs@[0])),
                lone ==> msg == literal_return_message(exprs@[0]),
                lone ==> exprs@.len() == 1 && (i == 0 ==> tc.type_aliases@.len() == 0 && tc.classes@.len() == 0
                    && tc.type_vars@.len() == 0) && (i == 1 ==> errors_hold(tc.errors@, msg)),
                annot ==> (i == 1 ==> TypeChecker::annotation_recorded(&tc, exprs@[0])),
            decreases exprs@.len() - i,
        {
            let ghost t0 = tc;
            proof {
                if lone {
                    lemma_lone_mismatch_owed(&t0, exprs@[0]);
                }
            }
            tc.check_expr(&exprs[i]);
            i += 1;
        }
        // Each productive pass records one more return type, so passes stop
        // within the number of signatures.
        let rounds = tc.signature_count();
        let mut k: usize = 0;
        while k <= rounds
            invariant
                exprs@.len() == 0 ==> tc.errors@.len() == 0,
                lone == (exprs@.len() == 1 && lone_literal_return_mismatch(exprs@[0])),
                annot == (exprs@.len() == 1 && lone_literal_fn(exprs@[0])),
                lone ==> msg == literal_return_message(exprs@[0]),
                lone ==> errors_hold(tc.errors@, msg),
                annot ==> TypeChecker::annotation_recorded(&tc, exprs@[0]),
            decreases rounds - k + 1,
        {
            if !tc.propagate_once(exprs) {
                break;
            }
            if k == rounds {
                break;
            }
            k += 1;
        }
        if tc.any_unresolved() {
            tc.lenient = true;
            let max_iters = tc.signature_count();
            let mut k: usize = 0;
            while k < max_iters
                invariant
                    exprs@.len() == 0 ==> tc.errors@.len() == 0,
                    lone == (exprs@.len() == 1 && lone_literal_return_mismatch(exprs@[0])),
                    annot == (exprs@.len() == 1 && lone_literal_fn(exprs@[0])),
                    lone ==> msg == literal_return_message(exprs@[0]),
                    lone ==> errors_hold(tc.errors@, msg),
                    annot ==> TypeChecker::annotation_recorded(&tc, exprs@[0]),
                decreases max_iters - k,
            {
                if !tc.propagate_once(exprs) {
                    break;
                }
                k += 1;
            }
            tc.lenient = false;
            let mut i: usize = 0;
            while i < exprs.len()
                invariant
                    i <= exprs@.len(),
                    exprs@.len() == 0 ==> tc.errors@.len() == 0,
                    lone == (exprs@.len() == 1 && lone_literal_return_mismatch(exprs@[0])),
                    annot == (exprs@.len() == 1 && lone_literal_fn(exprs@[0])),
                    lone ==> msg == literal_return_message(exprs@[0]),
                    lone ==> errors_hold(tc.errors@, msg),
                    annot ==> TypeChecker::annotation_recorded(&tc, exprs@[0]),
                decreases exprs@.len() - i,
            {
                let ghost e0 = tc.errors@;
                tc.verify_annotated_return_types(&exprs[i]);
                proof {
                    if lone {
                        let k = choose|k: int| 0 <= k < e0.len() && (#[trigger] e0[k]).message@ == msg;
                        assert(tc.errors@[k] == e0[k]);
                    }
                }
                i += 1;
            }
        }
        let types = tc.into_checked_types();
        let mut errors: Vec<TypeCheckError> = Vec::new();
        let ghost before = tc.errors@;
        proof {
            if annot {
                if let Expr::Function { name, .. } = exprs@[0] {
                    lemma_key_index_bounds(tc.functions@, name@);
                }
            }
        }
        std::mem::swap(&mut errors, &mut tc.errors);
        assert(errors@ == before);
        TypeCheckInfo { errors, types }
    }

    /// The type errors of a program (see `check_info`).
    pub fn check(exprs: &[Expr]) -> (errors: Vec<TypeCheckError>)
        ensures
            exprs@.len() == 0 ==> errors@.len() == 0,
            exprs@.len() == 1 && lone_literal_return_mismatch(exprs@[0]) ==> errors_hold(errors@, literal_return_message(exprs@[0])),
    {
        TypeChecker::check_info(exprs).errors
    }
}

} // verus!
