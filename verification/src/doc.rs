//! Documentation extracted from a parsed program: its functions, classes,
//! interfaces and type aliases, with types and default values as text.
use crate::ast::{CallArg, Expr, FieldDef, MethodDef, ParamDef, TypeExpr};
use crate::text::{debug_quote, i64_to_string, int_decimal, quoted};
use crate::token::TokenKind;
use crate::typechecker::{copy_strings_pub, str_is, te_name, ty, ty_name};
use crate::value::Value;
use vstd::prelude::*;

verus! {

// ── The documentation records ───────────────────────────────────────────────

#[derive(Debug)]
pub struct FileDoc {
    pub functions: Vec<FunctionDoc>,
    pub classes: Vec<ClassDoc>,
    pub interfaces: Vec<InterfaceDoc>,
    pub type_aliases: Vec<TypeAliasDoc>,
}

#[derive(Debug)]
pub struct FunctionDoc {
    pub name: String,
    pub type_params: Vec<String>,
    pub params: Vec<ParamDoc>,
    pub return_type: Option<String>,
}

/// A parameter.  The grammar gives parameters no default value, so `default`
/// is always `None`; the field keeps the record's shape.
#[derive(Debug)]
pub struct ParamDoc {
    pub name: String,
    pub type_ann: Option<String>,
    pub default: Option<String>,
}

#[derive(Debug)]
pub struct ClassDoc {
    pub name: String,
    pub type_params: Vec<String>,
    pub superclass: Option<String>,
    pub is_abstract: bool,
    pub is_module: bool,
    pub includes: Vec<String>,
    pub fields: Vec<FieldDoc>,
    pub methods: Vec<MethodDoc>,
    pub nested: Vec<ClassDoc>,
    pub constants: Vec<ConstantDoc>,
}

#[derive(Debug)]
pub struct FieldDoc {
    pub name: String,
    pub type_ann: Option<String>,
    pub default: Option<String>,
}

#[derive(Debug)]
pub struct MethodDoc {
    pub name: String,
    pub type_params: Vec<String>,
    pub params: Vec<ParamDoc>,
    pub return_type: Option<String>,
    pub private: bool,
    pub class_method: bool,
    pub is_abstract: bool,
}

#[derive(Debug)]
pub struct InterfaceDoc {
    pub name: String,
    pub type_params: Vec<String>,
    pub methods: Vec<MethodDoc>,
}

#[derive(Debug)]
pub struct TypeAliasDoc {
    pub name: String,
    pub type_expr: String,
}

#[derive(Debug)]
pub struct ConstantDoc {
    pub name: String,
    pub value: String,
}

// ── Source text of expressions ──────────────────────────────────────────────

/// How a literal is shown: integers in decimal, floats as written, strings
/// quoted, `true`, `false` and `nil`.
pub open spec fn value_text(v: Value) -> Seq<char> {
    match v {
        Value::Int(n) => int_decimal(n as int),
        Value::Float(t) => t@,
        Value::Str(s) => quoted(s@),
        Value::Bool(b) => if b {
            "true"@
        } else {
            "false"@
        },
        Value::Nil => "nil"@,
    }
}

/// The symbol of an operator token; other tokens have none.
pub open spec fn op_text(k: TokenKind) -> Seq<char> {
    match k {
        TokenKind::Plus => "+"@,
        TokenKind::Minus => "-"@,
        TokenKind::Star => "*"@,
        TokenKind::Slash => "/"@,
        TokenKind::Percent => "%"@,
        TokenKind::Bang => "!"@,
        TokenKind::Tilde => "~"@,
        TokenKind::Amp => "&"@,
        TokenKind::Pipe => "|"@,
        TokenKind::Caret => "^"@,
        TokenKind::Eq => "="@,
        TokenKind::EqEq => "=="@,
        TokenKind::BangEq => "!="@,
        TokenKind::Less => "<"@,
        TokenKind::LessEq => "<="@,
        TokenKind::Greater => ">"@,
        TokenKind::GreaterEq => ">="@,
        _ => ""@,
    }
}

/// An expression written back as source: literals, names, lists, maps,
/// calls, attribute reads, `self`, ranges and unary operators; anything
/// else is shown as `...`.
pub open spec fn expr_text(e: Expr) -> Seq<char>
    decreases e, 1nat,
{
    match e {
        Expr::Literal(v) => value_text(v),
        Expr::Variable(name) => name@,
        Expr::ListLit(items) => "["@ + exprs_text(items@) + "]"@,
        Expr::MapLit(pairs) => "{"@ + pairs_text(pairs@) + "}"@,
        Expr::Call { callee, args, .. } => expr_text(*callee) + "("@ + args_text(args@) + ")"@,
        Expr::Get { object, name, .. } => expr_text(*object) + "."@ + name@,
        Expr::SelfExpr => "self"@,
        Expr::IVar { name } => name@,
        Expr::Range { from, to } => expr_text(*from) + ".."@ + expr_text(*to),
        Expr::Unary { op, right } => op_text(op.kind) + expr_text(*right),
        _ => "..."@,
    }
}

/// Expressions separated by `, `.
pub open spec fn exprs_text(s: Seq<Expr>) -> Seq<char>
    decreases s, 0nat,
{
    if s.len() == 0 {
        Seq::empty()
    } else if s.len() == 1 {
        expr_text(s[0])
    } else {
        exprs_text(s.drop_last()) + ", "@ + expr_text(s.last())
    }
}

/// Map entries `key: value`, separated by `, `.
pub open spec fn pairs_text(s: Seq<(String, Expr)>) -> Seq<char>
    decreases s, 0nat,
{
    if s.len() == 0 {
        Seq::empty()
    } else {
        let last = s.last().0@ + ": "@ + expr_text(s.last().1);
        if s.len() == 1 {
            last
        } else {
            pairs_text(s.drop_last()) + ", "@ + last
        }
    }
}

/// Call arguments, named ones as `name: value`, separated by `, `.
pub open spec fn args_text(s: Seq<CallArg>) -> Seq<char>
    decreases s, 0nat,
{
    if s.len() == 0 {
        Seq::empty()
    } else {
        let last = match s.last().name {
            Some(n) => n@ + ": "@ + expr_text(s.last().value),
            None => expr_text(s.last().value),
        };
        if s.len() == 1 {
            last
        } else {
            args_text(s.drop_last()) + ", "@ + last
        }
    }
}

// ── What each record says of its source ─────────────────────────────────────

/// `o` is the text of the type `t`, if there is one.
pub open spec fn type_text_of(o: Option<String>, t: Option<TypeExpr>) -> bool {
    match t {
        Some(te) => o matches Some(s) && s@ == ty_name(ty(te)),
        None => o is None,
    }
}

/// `o` is the source text of the expression `x`, if there is one.
pub open spec fn expr_text_of(o: Option<String>, x: Option<Expr>) -> bool {
    match x {
        Some(e) => o matches Some(s) && s@ == expr_text(e),
        None => o is None,
    }
}

/// The same strings, in the same order.
pub open spec fn same_strings(a: Seq<String>, b: Seq<String>) -> bool {
    a.len() == b.len() && forall|i: int| 0 <= i < a.len() ==> #[trigger] a[i]@ == b[i]@
}

pub open spec fn param_doc_of(d: ParamDoc, p: ParamDef) -> bool {
    &&& d.name@ == p.name@
    &&& type_text_of(d.type_ann, p.type_ann)
    &&& d.default is None
}

pub open spec fn params_doc_of(d: Seq<ParamDoc>, p: Seq<ParamDef>) -> bool {
    d.len() == p.len() && forall|i: int| 0 <= i < d.len() ==> param_doc_of(#[trigger] d[i], p[i])
}

pub open spec fn field_doc_of(d: FieldDoc, f: FieldDef) -> bool {
    &&& d.name@ == f.name@
    &&& type_text_of(d.type_ann, f.type_ann)
    &&& expr_text_of(d.default, f.default)
}

pub open spec fn method_doc_of(d: MethodDoc, m: MethodDef) -> bool {
    &&& d.name@ == m.name@
    &&& same_strings(d.type_params@, m.type_params@)
    &&& params_doc_of(d.params@, m.params@)
    &&& type_text_of(d.return_type, m.return_type)
    &&& d.private == m.private
    &&& d.class_method == m.class_method
    &&& d.is_abstract == m.is_abstract
}

pub open spec fn methods_doc_of(d: Seq<MethodDoc>, m: Seq<MethodDef>) -> bool {
    d.len() == m.len() && forall|i: int| 0 <= i < d.len() ==> method_doc_of(#[trigger] d[i], m[i])
}

/// A class whose superclass is the name `Test` holds tests, not API.
pub open spec fn is_test_super(s: Option<Box<Expr>>) -> bool {
    s matches Some(b) && (*b matches Expr::Variable(n) && n@ == "Test"@)
}

/// A class definition that is documented.
pub open spec fn is_doc_class(e: Expr) -> bool {
    e matches Expr::Class { superclass, .. } && !is_test_super(superclass)
}

/// The documented classes of `s`, in order.
pub open spec fn doc_classes(s: Seq<Expr>) -> Seq<Expr> {
    s.filter(|e: Expr| is_doc_class(e))
}

/// The function definitions of `s`, in order.
pub open spec fn fn_defs(s: Seq<Expr>) -> Seq<Expr> {
    s.filter(|e: Expr| e is Function)
}

/// The interface definitions of `s`, in order.
pub open spec fn interface_defs(s: Seq<Expr>) -> Seq<Expr> {
    s.filter(|e: Expr| e is Interface)
}

/// The type aliases of `s`, in order.
pub open spec fn alias_defs(s: Seq<Expr>) -> Seq<Expr> {
    s.filter(|e: Expr| e is TypeAlias)
}

pub open spec fn function_doc_of(d: FunctionDoc, e: Expr) -> bool {
    match e {
        Expr::Function { name, type_params, params, return_type, .. } => {
            &&& d.name@ == name@
            &&& same_strings(d.type_params@, type_params@)
            &&& params_doc_of(d.params@, params@)
            &&& type_text_of(d.return_type, return_type)
        },
        _ => false,
    }
}

pub open spec fn interface_doc_of(d: InterfaceDoc, e: Expr) -> bool {
    match e {
        Expr::Interface { name, type_params, methods } => {
            &&& d.name@ == name@
            &&& same_strings(d.type_params@, type_params@)
            &&& methods_doc_of(d.methods@, methods@)
        },
        _ => false,
    }
}

pub open spec fn alias_doc_of(d: TypeAliasDoc, e: Expr) -> bool {
    match e {
        Expr::TypeAlias { name, type_expr } => d.name@ == name@ && d.type_expr@ == ty_name(ty(type_expr)),
        _ => false,
    }
}

pub open spec fn constants_doc_of(d: Seq<ConstantDoc>, c: Seq<(String, Box<Expr>)>) -> bool {
    d.len() == c.len() && forall|i: int|
        0 <= i < d.len() ==> (#[trigger] d[i]).name@ == c[i].0@ && d[i].value@ == expr_text(*c[i].1)
}

/// `d` documents the class definition `e`: its names and flags, the text of
/// its superclass, its fields, methods and constants, and, in order, its
/// documented nested classes.
pub open spec fn class_doc_of(d: ClassDoc, e: Expr) -> bool
    decreases d,
{
    match e {
        Expr::Class { name, type_params, superclass, is_abstract, is_module, includes, fields, methods, nested, constants } => {
            &&& d.name@ == name@
            &&& same_strings(d.type_params@, type_params@)
            &&& match superclass {
                Some(b) => d.superclass matches Some(s) && s@ == expr_text(*b),
                None => d.superclass is None,
            }
            &&& d.is_abstract == is_abstract
            &&& d.is_module == is_module
            &&& same_strings(d.includes@, includes@)
            &&& d.fields@.len() == fields@.len()
            &&& (forall|i: int| 0 <= i < fields@.len() ==> field_doc_of(#[trigger] d.fields@[i], fields@[i]))
            &&& methods_doc_of(d.methods@, methods@)
            &&& constants_doc_of(d.constants@, constants@)
            &&& d.nested@.len() == doc_classes(nested@).len()
            &&& (forall|i: int| 0 <= i < d.nested@.len() ==> class_doc_of(#[trigger] d.nested@[i], doc_classes(nested@)[i]))
        },
        _ => false,
    }
}

/// `d` documents the program `exprs`: each of its lists holds, in source
/// order, one record for each top-level definition of its kind (classes
/// whose superclass is `Test` left out).
pub open spec fn file_doc_of(d: FileDoc, exprs: Seq<Expr>) -> bool {
    &&& d.functions@.len() == fn_defs(exprs).len()
    &&& (forall|i: int| 0 <= i < d.functions@.len() ==> function_doc_of(#[trigger] d.functions@[i], fn_defs(exprs)[i]))
    &&& d.classes@.len() == doc_classes(exprs).len()
    &&& (forall|i: int| 0 <= i < d.classes@.len() ==> class_doc_of(#[trigger] d.classes@[i], doc_classes(exprs)[i]))
    &&& d.interfaces@.len() == interface_defs(exprs).len()
    &&& (forall|i: int| 0 <= i < d.interfaces@.len() ==> interface_doc_of(#[trigger] d.interfaces@[i], interface_defs(exprs)[i]))
    &&& d.type_aliases@.len() == alias_defs(exprs).len()
    &&& (forall|i: int| 0 <= i < d.type_aliases@.len() ==> alias_doc_of(#[trigger] d.type_aliases@[i], alias_defs(exprs)[i]))
}

// ── Writing expressions back as text ────────────────────────────────────────

proof fn lemma_exprs_text_step(s: Seq<Expr>, i: int)
    requires
        0 <= i < s.len(),
    ensures
        exprs_text(s.take(i + 1)) == if i == 0 {
            expr_text(s[i])
        } else {
            exprs_text(s.take(i)) + ", "@ + expr_text(s[i])
        },
{
    assert(s.take(i + 1).drop_last() =~= s.take(i));
}

proof fn lemma_pairs_text_step(s: Seq<(String, Expr)>, i: int)
    requires
        0 <= i < s.len(),
    ensures
        pairs_text(s.take(i + 1)) == if i == 0 {
            s[i].0@ + ": "@ + expr_text(s[i].1)
        } else {
            pairs_text(s.take(i)) + ", "@ + s[i].0@ + ": "@ + expr_text(s[i].1)
        },
{
    assert(s.take(i + 1).drop_last() =~= s.take(i));
    assert(s.take(i + 1).last() == s[i]);
}

/// The text of a call argument.
pub open spec fn arg_text(a: CallArg) -> Seq<char> {
    match a.name {
        Some(n) => n@ + ": "@ + expr_text(a.value),
        None => expr_text(a.value),
    }
}

proof fn lemma_args_text_step(s: Seq<CallArg>, i: int)
    requires
        0 <= i < s.len(),
    ensures
        args_text(s.take(i + 1)) == if i == 0 {
            arg_text(s[i])
        } else {
            args_text(s.take(i)) + ", "@ + arg_text(s[i])
        },
{
    assert(s.take(i + 1).drop_last() =~= s.take(i));
    assert(s.take(i + 1).last() == s[i]);
}

fn value_to_text(v: &Value) -> (r: String)
    ensures
        r@ == value_text(*v),
{
    match v {
        Value::Int(n) => i64_to_string(*n),
        Value::Float(t) => t.clone(),
        Value::Str(st) => debug_quote(st.as_str()),
        Value::Bool(b) => if *b {
            String::from_str("true")
        } else {
            String::from_str("false")
        },
        Value::Nil => String::from_str("nil"),
    }
}

/// The symbol of an operator token, empty for other tokens.
pub fn token_kind_to_str(kind: &TokenKind) -> (r: String)
    ensures
        r@ == op_text(*kind),
{
    match kind {
        TokenKind::Plus => String::from_str("+"),
        TokenKind::Minus => String::from_str("-"),
        TokenKind::Star => String::from_str("*"),
        TokenKind::Slash => String::from_str("/"),
        TokenKind::Percent => String::from_str("%"),
        TokenKind::Bang => String::from_str("!"),
        TokenKind::Tilde => String::from_str("~"),
        TokenKind::Amp => String::from_str("&"),
        TokenKind::Pipe => String::from_str("|"),
        TokenKind::Caret => String::from_str("^"),
        TokenKind::Eq => String::from_str("="),
        TokenKind::EqEq => String::from_str("=="),
        TokenKind::BangEq => String::from_str("!="),
        TokenKind::Less => String::from_str("<"),
        TokenKind::LessEq => String::from_str("<="),
        TokenKind::Greater => String::from_str(">"),
        TokenKind::GreaterEq => String::from_str(">="),
        _ => String::from_str(""),
    }
}

fn concat3(a: &str, b: &str, c: &str) -> (r: String)
    ensures
        r@ == a@ + b@ + c@,
{
    let mut out = String::from_str(a);
    out.append(b);
    out.append(c);
    out
}

/// An expression written back as source text (see `expr_text`).
pub fn format_expr(expr: &Expr) -> (r: String)
    ensures
        r@ == expr_text(*expr),
    decreases *expr,
{
    match expr {
        Expr::Literal(v) => value_to_text(v),
        Expr::Variable(name) => name.clone(),
        Expr::ListLit(items) => {
            proof {
                assert(decreases_to!(*expr => *items));
                assert forall|k: int| 0 <= k < items@.len() implies decreases_to!(*expr => #[trigger] items@[k]) by {
                    assert(decreases_to!(*items => items@));
                    assert(decreases_to!(items@ => items@[k]));
                }
            }
            let mut out = String::new();
            let mut i: usize = 0;
            while i < items.len()
                invariant
                    i <= items@.len(),
                    forall|k: int| 0 <= k < items@.len() ==> decreases_to!(*expr => #[trigger] items@[k]),
                    out@ == exprs_text(items@.take(i as int)),
                decreases items@.len() - i,
            {
                assert(decreases_to!(*expr => items@[i as int]));
                let t = format_expr(&items[i]);
                if i > 0 {
                    out.append(", ");
                }
                out.append(t.as_str());
                proof {
                    lemma_exprs_text_step(items@, i as int);
                }
                i += 1;
            }
            assert(items@.take(items@.len() as int) =~= items@);
            concat3("[", out.as_str(), "]")
        },
        Expr::MapLit(pairs) => {
            proof {
                assert(decreases_to!(*expr => *pairs));
                assert forall|k: int| 0 <= k < pairs@.len() implies decreases_to!(*expr => #[trigger] pairs@[k].1) by {
                    assert(decreases_to!(*pairs => pairs@));
                    assert(decreases_to!(pairs@ => pairs@[k]));
                    assert(decreases_to!(pairs@[k] => pairs@[k].1));
                }
            }
            let mut out = String::new();
            let mut i: usize = 0;
            while i < pairs.len()
                invariant
                    i <= pairs@.len(),
                    forall|k: int| 0 <= k < pairs@.len() ==> decreases_to!(*expr => #[trigger] pairs@[k].1),
                    out@ == pairs_text(pairs@.take(i as int)),
                decreases pairs@.len() - i,
            {
                assert(decreases_to!(*expr => pairs@[i as int].1));
                let t = format_expr(&pairs[i].1);
                if i > 0 {
                    out.append(", ");
                }
                out.append(pairs[i].0.as_str());
                out.append(": ");
                out.append(t.as_str());
                proof {
                    lemma_pairs_text_step(pairs@, i as int);
                }
                i += 1;
            }
            assert(pairs@.take(pairs@.len() as int) =~= pairs@);
            concat3("{", out.as_str(), "}")
        },
        Expr::Call { callee, args, .. } => {
            proof {
                assert(decreases_to!(*expr => *args));
                assert forall|k: int| 0 <= k < args@.len() implies decreases_to!(*expr => #[trigger] args@[k].value) by {
                    assert(decreases_to!(*args => args@));
                    assert(decreases_to!(args@ => args@[k]));
                    assert(decreases_to!(args@[k] => args@[k].value));
                }
            }
            let mut out = String::new();
            let mut i: usize = 0;
            while i < args.len()
                invariant
                    i <= args@.len(),
                    forall|k: int| 0 <= k < args@.len() ==> decreases_to!(*expr => #[trigger] args@[k].value),
                    out@ == args_text(args@.take(i as int)),
                decreases args@.len() - i,
            {
                assert(decreases_to!(*expr => args@[i as int].value));
                let t = format_expr(&args[i].value);
                if i > 0 {
                    out.append(", ");
                }
                if let Some(n) = &args[i].name {
                    out.append(n.as_str());
                    out.append(": ");
                }
                out.append(t.as_str());
                proof {
                    lemma_args_text_step(args@, i as int);
                }
                i += 1;
            }
            assert(args@.take(args@.len() as int) =~= args@);
            let mut r = format_expr(callee);
            r.append(concat3("(", out.as_str(), ")").as_str());
            r
        },
        Expr::Get { object, name, .. } => {
            let mut r = format_expr(object);
            r.append(".");
            r.append(name.as_str());
            r
        },
        Expr::SelfExpr => String::from_str("self"),
        Expr::IVar { name } => name.clone(),
        Expr::Range { from, to } => {
            let mut r = format_expr(from);
            r.append("..");
            r.append(format_expr(to).as_str());
            r
        },
        Expr::Unary { op, right } => {
            let mut r = token_kind_to_str(&op.kind);
            r.append(format_expr(right).as_str());
            r
        },
        _ => String::from_str("..."),
    }
}

// ── Extracting the records ──────────────────────────────────────────────────

proof fn lemma_doc_classes_step(s: Seq<Expr>, i: int)
    requires
        0 <= i < s.len(),
    ensures
        doc_classes(s.take(i + 1)) == if is_doc_class(s[i]) {
            doc_classes(s.take(i)).push(s[i])
        } else {
            doc_classes(s.take(i))
        },
{
    reveal(Seq::filter);
    assert(s.take(i + 1).drop_last() =~= s.take(i));
}

proof fn lemma_defs_step(s: Seq<Expr>, i: int)
    requires
        0 <= i < s.len(),
    ensures
        fn_defs(s.take(i + 1)) == if s[i] is Function {
            fn_defs(s.take(i)).push(s[i])
        } else {
            fn_defs(s.take(i))
        },
        interface_defs(s.take(i + 1)) == if s[i] is Interface {
            interface_defs(s.take(i)).push(s[i])
        } else {
            interface_defs(s.take(i))
        },
        alias_defs(s.take(i + 1)) == if s[i] is TypeAlias {
            alias_defs(s.take(i)).push(s[i])
        } else {
            alias_defs(s.take(i))
        },
{
    reveal(Seq::filter);
    assert(s.take(i + 1).drop_last() =~= s.take(i));
}

proof fn lemma_take_empty(s: Seq<Expr>)
    ensures
        doc_classes(s.take(0)).len() == 0,
        fn_defs(s.take(0)).len() == 0,
        interface_defs(s.take(0)).len() == 0,
        alias_defs(s.take(0)).len() == 0,
{
    reveal(Seq::filter);
}

fn type_text(t: &Option<TypeExpr>) -> (r: Option<String>)
    ensures
        type_text_of(r, *t),
{
    match t {
        Some(te) => Some(te_name(te)),
        None => None,
    }
}

fn expr_opt_text(x: &Option<Expr>) -> (r: Option<String>)
    ensures
        expr_text_of(r, *x),
{
    match x {
        Some(e) => Some(format_expr(e)),
        None => None,
    }
}

fn extract_param(param: &ParamDef) -> (d: ParamDoc)
    ensures
        param_doc_of(d, *param),
{
    ParamDoc { name: param.name.clone(), type_ann: type_text(&param.type_ann), default: None }
}

fn extract_params(params: &Vec<ParamDef>) -> (v: Vec<ParamDoc>)
    ensures
        params_doc_of(v@, params@),
{
    let mut v: Vec<ParamDoc> = Vec::new();
    let mut i: usize = 0;
    while i < params.len()
        invariant
            i <= params@.len(),
            v@.len() == i,
            forall|k: int| 0 <= k < i ==> param_doc_of(#[trigger] v@[k], params@[k]),
        decreases params@.len() - i,
    {
        v.push(extract_param(&params[i]));
        i += 1;
    }
    v
}

fn extract_field(field: &FieldDef) -> (d: FieldDoc)
    ensures
        field_doc_of(d, *field),
{
    FieldDoc { name: field.name.clone(), type_ann: type_text(&field.type_ann), default: expr_opt_text(&field.default) }
}

fn extract_method(method: &MethodDef) -> (d: MethodDoc)
    ensures
        method_doc_of(d, *method),
{
    MethodDoc {
        name: method.name.clone(),
        type_params: copy_strings_pub(&method.type_params),
        params: extract_params(&method.params),
        return_type: type_text(&method.return_type),
        private: method.private,
        class_method: method.class_method,
        is_abstract: method.is_abstract,
    }
}

fn extract_methods(methods: &Vec<MethodDef>) -> (v: Vec<MethodDoc>)
    ensures
        methods_doc_of(v@, methods@),
{
    let mut v: Vec<MethodDoc> = Vec::new();
    let mut i: usize = 0;
    while i < methods.len()
        invariant
            i <= methods@.len(),
            v@.len() == i,
            forall|k: int| 0 <= k < i ==> method_doc_of(#[trigger] v@[k], methods@[k]),
        decreases methods@.len() - i,
    {
        v.push(extract_method(&methods[i]));
        i += 1;
    }
    v
}

/// Whether a superclass is the name `Test`.
fn is_test_class(superclass: &Option<Box<Expr>>) -> (r: bool)
    ensures
        r == is_test_super(*superclass),
{
    match superclass {
        Some(b) => match &**b {
            Expr::Variable(n) => str_is(n, "Test"),
            _ => false,
        },
        None => false,
    }
}

fn is_documented_class(e: &Expr) -> (r: bool)
    ensures
        r == is_doc_class(*e),
{
    match e {
        Expr::Class { superclass, .. } => !is_test_class(superclass),
        _ => false,
    }
}

fn extract_class(e: &Expr) -> (d: ClassDoc)
    requires
        e is Class,
    ensures
        class_doc_of(d, *e),
    decreases *e,
{
    match e {
        Expr::Class { name, type_params, superclass, is_abstract, is_module, includes, fields, methods, nested, constants } => {
            let superclass_str = match superclass {
                Some(b) => Some(format_expr(b)),
                None => None,
            };
            proof {
                assert(decreases_to!(*e => *nested));
                assert forall|k: int| 0 <= k < nested@.len() implies decreases_to!(*e => #[trigger] nested@[k]) by {
                    assert(decreases_to!(*nested => nested@));
                    assert(decreases_to!(nested@ => nested@[k]));
                }
                lemma_take_empty(nested@);
            }
            let mut nested_classes: Vec<ClassDoc> = Vec::new();
            let mut i: usize = 0;
            while i < nested.len()
                invariant
                    i <= nested@.len(),
                    forall|k: int| 0 <= k < nested@.len() ==> decreases_to!(*e => #[trigger] nested@[k]),
                    nested_classes@.len() == doc_classes(nested@.take(i as int)).len(),
                    forall|k: int| 0 <= k < nested_classes@.len() ==> class_doc_of(#[trigger] nested_classes@[k], doc_classes(nested@.take(i as int))[k]),
                decreases nested@.len() - i,
            {
                proof {
                    lemma_doc_classes_step(nested@, i as int);
                }
                if is_documented_class(&nested[i]) {
                    assert(decreases_to!(*e => nested@[i as int]));
                    let c = extract_class(&nested[i]);
                    nested_classes.push(c);
                }
                i += 1;
            }
            assert(nested@.take(nested@.len() as int) =~= nested@);
            let mut fdocs: Vec<FieldDoc> = Vec::new();
            let mut i: usize = 0;
            while i < fields.len()
                invariant
                    i <= fields@.len(),
                    fdocs@.len() == i,
                    forall|k: int| 0 <= k < i ==> field_doc_of(#[trigger] fdocs@[k], fields@[k]),
                decreases fields@.len() - i,
            {
                fdocs.push(extract_field(&fields[i]));
                i += 1;
            }
            let mut cdocs: Vec<ConstantDoc> = Vec::new();
            let mut i: usize = 0;
            while i < constants.len()
                invariant
                    i <= constants@.len(),
                    cdocs@.len() == i,
                    forall|k: int| 0 <= k < i ==> (#[trigger] cdocs@[k]).name@ == constants@[k].0@ && cdocs@[k].value@ == expr_text(*constants@[k].1),
                decreases constants@.len() - i,
            {
                cdocs.push(ConstantDoc { name: constants[i].0.clone(), value: format_expr(&constants[i].1) });
                i += 1;
            }
            ClassDoc {
                name: name.clone(),
                type_params: copy_strings_pub(type_params),
                superclass: superclass_str,
                is_abstract: *is_abstract,
                is_module: *is_module,
                includes: copy_strings_pub(includes),
                fields: fdocs,
                methods: extract_methods(methods),
                nested: nested_classes,
                constants: cdocs,
            }
        },
        _ => ClassDoc {
            name: String::new(),
            type_params: Vec::new(),
            superclass: None,
            is_abstract: false,
            is_module: false,
            includes: Vec::new(),
            fields: Vec::new(),
            methods: Vec::new(),
            nested: Vec::new(),
            constants: Vec::new(),
        },
    }
}

/// The documentation of a program: its top-level functions, classes (but
/// those whose superclass is `Test`), interfaces and type aliases, each list
/// in source order.
pub fn extract_file_doc(exprs: &[Expr]) -> (d: FileDoc)
    ensures
        file_doc_of(d, exprs@),
{
    let mut functions: Vec<FunctionDoc> = Vec::new();
    let mut classes: Vec<ClassDoc> = Vec::new();
    let mut interfaces: Vec<InterfaceDoc> = Vec::new();
    let mut type_aliases: Vec<TypeAliasDoc> = Vec::new();
    proof {
        lemma_take_empty(exprs@);
    }
    let mut i: usize = 0;
    while i < exprs.len()
        invariant
            i <= exprs@.len(),
            file_doc_of(FileDoc { functions, classes, interfaces, type_aliases }, exprs@.take(i as int)),
        decreases exprs@.len() - i,
    {
        proof {
            lemma_doc_classes_step(exprs@, i as int);
            lemma_defs_step(exprs@, i as int);
        }
        match &exprs[i] {
            Expr::Function { name, type_params, params, return_type, .. } => {
                functions.push(
                    FunctionDoc {
                        name: name.clone(),
                        type_params: copy_strings_pub(type_params),
                        params: extract_params(params),
                        return_type: type_text(return_type),
                    },
                );
            },
            Expr::Class { superclass, .. } => {
                if !is_test_class(superclass) {
                    classes.push(extract_class(&exprs[i]));
                }
            },
            Expr::Interface { name, type_params, methods } => {
                interfaces.push(
                    InterfaceDoc {
                        name: name.clone(),
                        type_params: copy_strings_pub(type_params),
                        methods: extract_methods(methods),
                    },
                );
            },
            Expr::TypeAlias { name, type_expr } => {
                type_aliases.push(TypeAliasDoc { name: name.clone(), type_expr: te_name(type_expr) });
            },
            _ => {},
        }
        i += 1;
    }
    assert(exprs@.take(exprs@.len() as int) =~= exprs@);
    FileDoc { functions, classes, interfaces, type_aliases }
}

} // verus!
