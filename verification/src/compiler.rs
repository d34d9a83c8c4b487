//! The bytecode compiler: turns a parsed program into a function whose chunk
//! the VM runs.
use std::rc::Rc;
use vstd::prelude::*;
use vstd::string::StringSliceAdditionalSpecFns;

use crate::ast::{Block, Expr, FieldDef, MatchArm, MethodDef, Pattern, RescueClause, StringPart, TypeExpr};
use crate::chunk::{is_forward_jump, with_jump_offset, Chunk, Constant, Function, OpCode, RuntimeType, UpvalueDef};
use crate::parser::{char_is_uppercase, is_uppercase_char};
use crate::text::{str_to_chars, u64_to_string};
use crate::token::TokenKind;
use crate::typechecker::{
    copy_type, find_key, has_name, lemma_flatten_step, lemma_resolved_tys, lemma_tys, lit_view, lookup, opt_ty, resolved_ty,
    resolved_tys, flatten_arms, str_eq, str_is, ty, tys, LitView, TyView,
};
use crate::value::Value;

verus! {

// ── Errors ──────────────────────────────────────────────────────────────────

/// A compile error, at a source line and column.
#[derive(Debug, PartialEq, Eq)]
pub struct CompileError {
    pub message: String,
    pub line: u32,
    pub column: u32,
}

impl CompileError {
    /// The error as it is shown: `[line L:C] compile error: message`.
    pub fn to_string(&self) -> (r: String)
        ensures
            r@ == "[line "@ + crate::text::nat_digits(self.line as nat) + ":"@ + crate::text::nat_digits(
                self.column as nat,
            ) + "] compile error: "@ + self.message@,
    {
        let mut out = String::from_str("[line ");
        out.append(u64_to_string(self.line as u64).as_str());
        out.append(":");
        out.append(u64_to_string(self.column as u64).as_str());
        out.append("] compile error: ");
        out.append(self.message.as_str());
        out
    }
}

// ── Suggestions for misspelt names ──────────────────────────────────────────

/// The edit distance between `a` and `b`: the fewest single-character
/// insertions, deletions and substitutions turning one into the other.
pub open spec fn edit_distance(a: Seq<char>, b: Seq<char>) -> nat
    decreases a.len() + b.len(),
{
    if a.len() == 0 {
        b.len()
    } else if b.len() == 0 {
        a.len()
    } else {
        let sub = edit_distance(a.drop_last(), b.drop_last()) + if a.last() == b.last() {
            0nat
        } else {
            1nat
        };
        let del = edit_distance(a.drop_last(), b) + 1;
        let ins = edit_distance(a, b.drop_last()) + 1;
        if sub <= del && sub <= ins {
            sub
        } else if del <= ins {
            del
        } else {
            ins
        }
    }
}

proof fn lemma_edit_distance_bound(a: Seq<char>, b: Seq<char>)
    ensures
        edit_distance(a, b) <= a.len() + b.len(),
    decreases a.len() + b.len(),
{
    if a.len() > 0 && b.len() > 0 {
        lemma_edit_distance_bound(a.drop_last(), b);
    }
}

proof fn lemma_edit_distance_row0(b: Seq<char>, j: int)
    requires
        0 <= j <= b.len(),
    ensures
        edit_distance(Seq::<char>::empty(), b.take(j)) == j,
{
}

/// Levenshtein distance, by the usual row-by-row table.
pub fn levenshtein(a: &str, b: &str) -> (d: u128)
    ensures
        d == edit_distance(a@, b@),
{
    let a = str_to_chars(a);
    let b = str_to_chars(b);
    let m = b.len();
    let mut prev: Vec<u128> = Vec::new();
    let mut j: usize = 0;
    proof {
        assert(a@.take(0) =~= Seq::<char>::empty());
    }
    while j < m
        invariant
            j <= m,
            m == b@.len(),
            a@.take(0) == Seq::<char>::empty(),
            prev@.len() == j,
            forall|k: int| 0 <= k < j ==> #[trigger] prev@[k] == edit_distance(a@.take(0), b@.take(k)),
        decreases m - j,
    {
        proof {
            lemma_edit_distance_row0(b@, j as int);
        }
        prev.push(j as u128);
        j += 1;
    }
    proof {
        lemma_edit_distance_row0(b@, m as int);
    }
    prev.push(m as u128);
    let mut i: usize = 0;
    while i < a.len()
        invariant
            i <= a@.len(),
            m == b@.len(),
            prev@.len() == m + 1,
            forall|k: int| 0 <= k <= m ==> #[trigger] prev@[k] == edit_distance(a@.take(i as int), b@.take(k)),
        decreases a@.len() - i,
    {
        let mut curr: Vec<u128> = Vec::new();
        let ghost ai = a@.take(i as int);
        let ghost ai1 = a@.take(i + 1);
        proof {
            assert(ai1.drop_last() =~= ai);
            assert(b@.take(0) =~= Seq::<char>::empty());
        }
        curr.push((i + 1) as u128);
        let mut j: usize = 0;
        while j < m
            invariant
                i < a@.len(),
                j <= m,
                m == b@.len(),
                prev@.len() == m + 1,
                ai == a@.take(i as int),
                ai1 == a@.take(i + 1),
                ai1.drop_last() == ai,
                ai1.last() == a@[i as int],
                curr@.len() == j + 1,
                forall|k: int| 0 <= k <= m ==> #[trigger] prev@[k] == edit_distance(ai, b@.take(k)),
                forall|k: int| 0 <= k <= j ==> #[trigger] curr@[k] == edit_distance(ai1, b@.take(k)),
            decreases m - j,
        {
            let cost: u128 = if a[i] == b[j] {
                0
            } else {
                1
            };
            let ghost bj1 = b@.take(j + 1);
            proof {
                assert(bj1.drop_last() =~= b@.take(j as int));
                assert(bj1.last() == b@[j as int]);
                lemma_edit_distance_bound(ai1, b@.take(j as int));
                lemma_edit_distance_bound(ai, bj1);
                lemma_edit_distance_bound(ai, b@.take(j as int));
            }
            let x = curr[j] + 1;
            let y = prev[j + 1] + 1;
            let z = prev[j] + cost;
            let best = if z <= y && z <= x {
                z
            } else if y <= x {
                y
            } else {
                x
            };
            proof {
                assert(edit_distance(ai1, bj1) == best);
            }
            curr.push(best);
            j += 1;
        }
        prev = curr;
        i += 1;
    }
    proof {
        assert(a@.take(a@.len() as int) =~= a@);
        assert(b@.take(m as int) =~= b@);
    }
    prev[m]
}

/// How many edits a suggestion may be away from `name`: a third of its
/// length in bytes, at least two.
pub open spec fn suggestion_threshold(name: &str) -> nat {
    let third = (name.spec_bytes().len() as usize) / 3;
    if third > 2 {
        third as nat
    } else {
        2
    }
}

/// The candidate closest to `name` within a third of its length (at least
/// two edits); the first such candidate on a tie.
pub fn suggest_name(name: &str, candidates: &Vec<String>) -> (r: Option<usize>)
    ensures
        match r {
            Some(k) => {
                &&& k < candidates@.len()
                &&& edit_distance(name@, candidates@[k as int]@) <= suggestion_threshold(name)
                &&& forall|j: int|
                    0 <= j < candidates@.len() && edit_distance(name@, #[trigger] candidates@[j]@)
                        <= suggestion_threshold(name) ==> edit_distance(name@, candidates@[k as int]@)
                        <= edit_distance(name@, candidates@[j]@)
                &&& forall|j: int|
                    0 <= j < k && edit_distance(name@, #[trigger] candidates@[j]@) <= suggestion_threshold(name)
                        ==> edit_distance(name@, candidates@[k as int]@) < edit_distance(name@, candidates@[j]@)
            },
            None => forall|j: int|
                0 <= j < candidates@.len() ==> edit_distance(name@, #[trigger] candidates@[j]@)
                    > suggestion_threshold(name),
        },
{
    let third = name.len() / 3;
    let threshold = if third > 2 {
        third
    } else {
        2
    };
    let ghost t = suggestion_threshold(name);
    let mut best: Option<(usize, u128)> = None;
    let mut i: usize = 0;
    while i < candidates.len()
        invariant
            i <= candidates@.len(),
            threshold == t,
            t == suggestion_threshold(name),
            match best {
                Some((k, bd)) => {
                    &&& k < i
                    &&& bd == edit_distance(name@, candidates@[k as int]@)
                    &&& bd <= t
                    &&& forall|j: int|
                        0 <= j < i && edit_distance(name@, #[trigger] candidates@[j]@) <= t ==> bd
                            <= edit_distance(name@, candidates@[j]@)
                    &&& forall|j: int|
                        0 <= j < k && edit_distance(name@, #[trigger] candidates@[j]@) <= t ==> bd
                            < edit_distance(name@, candidates@[j]@)
                },
                None => forall|j: int| 0 <= j < i ==> edit_distance(name@, #[trigger] candidates@[j]@) > t,
            },
        decreases candidates@.len() - i,
    {
        let d = levenshtein(name, candidates[i].as_str());
        if d <= threshold as u128 {
            match best {
                Some((_, bd)) => {
                    if d < bd {
                        best = Some((i, d));
                    }
                },
                None => {
                    best = Some((i, d));
                },
            }
        }
        i += 1;
    }
    match best {
        Some((k, _)) => Some(k),
        None => None,
    }
}

// ── Type annotations at run time ────────────────────────────────────────────

/// The includes of a class nested in `enclosing`, with dotted names prefixed
/// by the enclosing class names.
pub fn resolve_include_names(enclosing_stack: &Vec<String>, includes: &Vec<String>) -> (out: Vec<String>)
    ensures
        out@.len() == includes@.len(),
        forall|i: int| 0 <= i < includes@.len() ==> (#[trigger] out@[i])@ == resolved_include(enclosing_stack@, includes@[i]@),
{
    let mut out: Vec<String> = Vec::new();
    let mut i: usize = 0;
    while i < includes.len()
        invariant
            i <= includes@.len(),
            out@.len() == i,
            forall|k: int| 0 <= k < i ==> (#[trigger] out@[k])@ == resolved_include(enclosing_stack@, includes@[k]@),
        decreases includes@.len() - i,
    {
        let inc = &includes[i];
        let cs = str_to_chars(inc.as_str());
        let mut has_dot = false;
        let mut k: usize = 0;
        while k < cs.len()
            invariant
                k <= cs@.len(),
                cs@ == inc@,
                has_dot == exists|m: int| 0 <= m < k && cs@[m] == '.',
            decreases cs@.len() - k,
        {
            if cs[k] == '.' {
                has_dot = true;
            }
            k += 1;
        }
        assert(has_dot == inc@.contains('.'));
        if has_dot {
            let mut r = String::new();
            let mut j: usize = 0;
            while j < enclosing_stack.len()
                invariant
                    j <= enclosing_stack@.len(),
                    r@ == enclosing_prefix(enclosing_stack@.take(j as int)),
                decreases enclosing_stack@.len() - j,
            {
                proof {
                    assert(enclosing_stack@.take(j + 1).drop_last() =~= enclosing_stack@.take(j as int));
                }
                r.append(enclosing_stack[j].as_str());
                r.append(".");
                j += 1;
            }
            proof {
                assert(enclosing_stack@.take(enclosing_stack@.len() as int) =~= enclosing_stack@);
            }
            r.append(inc.as_str());
            out.push(r);
        } else {
            out.push(inc.clone());
        }
        i += 1;
    }
    out
}

/// Each enclosing class name followed by `.`, outermost first.
pub open spec fn enclosing_prefix(stack: Seq<String>) -> Seq<char>
    decreases stack.len(),
{
    if stack.len() == 0 {
        Seq::empty()
    } else {
        enclosing_prefix(stack.drop_last()) + stack.last()@ + "."@
    }
}

/// An include of a class nested in the classes `stack`: a dotted name gets
/// the enclosing class names in front; any other name stays as it is.
pub open spec fn resolved_include(stack: Seq<String>, inc: Seq<char>) -> Seq<char> {
    if inc.contains('.') {
        enclosing_prefix(stack) + inc
    } else {
        inc
    }
}

/// Whether `n` is one of `names`.
pub open spec fn named_in(names: Seq<String>, n: Seq<char>) -> bool {
    exists|i: int| 0 <= i < names.len() && (#[trigger] names[i])@ == n
}

/// A type with every name that is one of the type variables `tv` replaced
/// by `Any`, inside applied types and unions too.
pub open spec fn erased(t: TyView, tv: Seq<String>) -> TyView
    decreases t, 1nat,
{
    match t {
        TyView::Named(n) => if named_in(tv, n) {
            TyView::Any
        } else {
            TyView::Named(n)
        },
        TyView::Apply(n, args) => TyView::Apply(n, erased_all(args, tv)),
        TyView::Union(arms) => TyView::Union(erased_all(arms, tv)),
        other => other,
    }
}

/// `erased` of each type of `s`.
pub open spec fn erased_all(s: Seq<TyView>, tv: Seq<String>) -> Seq<TyView>
    decreases s, 0nat,
{
    if s.len() == 0 {
        Seq::empty()
    } else {
        erased_all(s.drop_last(), tv).push(erased(s.last(), tv))
    }
}

/// Replace the named types that are type variables with `Any`.
pub fn erase_type_vars(te: &TypeExpr, type_vars: &Vec<String>) -> (r: TypeExpr)
    ensures
        ty(r) == erased(ty(*te), type_vars@),
    decreases *te, 1nat,
{
    match te {
        TypeExpr::Named(n) => if has_name(type_vars, n.as_str()) {
            TypeExpr::Any
        } else {
            TypeExpr::Named(n.clone())
        },
        TypeExpr::Apply(n, args) => {
            proof {
                crate::typechecker::lemma_elems_decrease(*te, *args);
            }
            TypeExpr::Apply(n.clone(), erase_all(args, type_vars, Ghost(*te)))
        },
        TypeExpr::Union(arms) => {
            proof {
                crate::typechecker::lemma_elems_decrease(*te, *arms);
            }
            TypeExpr::Union(erase_all(arms, type_vars, Ghost(*te)))
        },
        other => copy_type(other),
    }
}

fn erase_all(v: &Vec<TypeExpr>, type_vars: &Vec<String>, Ghost(parent): Ghost<TypeExpr>) -> (r: Vec<TypeExpr>)
    requires
        forall|i: int| 0 <= i < v@.len() ==> decreases_to!(parent => #[trigger] v@[i]),
    ensures
        tys(r@) == erased_all(tys(v@), type_vars@),
    decreases parent, 0nat,
{
    proof {
        lemma_tys(v@);
    }
    let mut r: Vec<TypeExpr> = Vec::new();
    let mut i: usize = 0;
    while i < v.len()
        invariant
            i <= v@.len(),
            tys(v@).len() == v@.len(),
            forall|k: int| 0 <= k < v@.len() ==> #[trigger] tys(v@)[k] == ty(v@[k]),
            forall|k: int| 0 <= k < v@.len() ==> decreases_to!(parent => #[trigger] v@[k]),
            tys(r@) == erased_all(tys(v@).take(i as int), type_vars@),
        decreases v@.len() - i,
    {
        assert(decreases_to!(parent => v@[i as int]));
        let x = erase_type_vars(&v[i], type_vars);
        proof {
            assert(tys(v@).take(i + 1).drop_last() =~= tys(v@).take(i as int));
            assert(tys(v@).take(i + 1).last() == ty(v@[i as int]));
            assert(r@.push(x).drop_last() =~= r@);
        }
        r.push(x);
        i += 1;
    }
    assert(tys(v@).take(v@.len() as int) =~= tys(v@));
    r
}

/// The mathematical value of a run-time type check.
pub enum RtView {
    Named(Seq<char>),
    Literal(LitView),
    Union(Seq<RtView>),
}

pub open spec fn rt(r: RuntimeType) -> RtView
    decreases r,
{
    match r {
        RuntimeType::Named(n) => RtView::Named(n@),
        RuntimeType::Literal(v) => RtView::Literal(lit_view(v)),
        RuntimeType::Union(parts) => RtView::Union(rts(parts@)),
    }
}

pub open spec fn rts(s: Seq<RuntimeType>) -> Seq<RtView>
    decreases s,
{
    if s.len() == 0 {
        Seq::empty()
    } else {
        rts(s.drop_last()).push(rt(s.last()))
    }
}

/// The run-time check of a type: a name or an applied type checks its name,
/// unless it names an interface, which checks nothing; a literal checks its
/// value; a union checks any of its arms that check something, and nothing
/// when none does; `Any` checks nothing.
pub open spec fn runtime_of(t: TyView, ifs: Seq<String>) -> Option<RtView>
    decreases t, 1nat,
{
    match t {
        TyView::Named(n) => if named_in(ifs, n) {
            None
        } else {
            Some(RtView::Named(n))
        },
        TyView::Apply(n, _) => if named_in(ifs, n) {
            None
        } else {
            Some(RtView::Named(n))
        },
        TyView::Literal(l) => Some(RtView::Literal(l)),
        TyView::Any => None,
        TyView::Union(arms) => {
            let parts = runtime_parts(arms, ifs);
            if parts.len() == 0 {
                None
            } else {
                Some(RtView::Union(parts))
            }
        },
    }
}

/// The checks of the arms of a union that check something, in order.
pub open spec fn runtime_parts(s: Seq<TyView>, ifs: Seq<String>) -> Seq<RtView>
    decreases s, 0nat,
{
    if s.len() == 0 {
        Seq::empty()
    } else {
        let p = runtime_parts(s.drop_last(), ifs);
        match runtime_of(s.last(), ifs) {
            Some(x) => p.push(x),
            None => p,
        }
    }
}

/// The run-time check for an annotation (see `runtime_of`).
pub fn type_expr_runtime(te: &TypeExpr, interfaces: &Vec<String>) -> (r: Option<RuntimeType>)
    ensures
        match r {
            Some(x) => runtime_of(ty(*te), interfaces@) == Some(rt(x)),
            None => runtime_of(ty(*te), interfaces@) is None,
        },
    decreases *te, 1nat,
{
    match te {
        TypeExpr::Named(n) => if has_name(interfaces, n.as_str()) {
            None
        } else {
            Some(RuntimeType::Named(n.clone()))
        },
        TypeExpr::Apply(n, _) => if has_name(interfaces, n.as_str()) {
            None
        } else {
            Some(RuntimeType::Named(n.clone()))
        },
        TypeExpr::Literal(v) => Some(RuntimeType::Literal(v.copy())),
        TypeExpr::Any => None,
        TypeExpr::Union(arms) => {
            proof {
                crate::typechecker::lemma_elems_decrease(*te, *arms);
            }
            let parts = runtime_all(arms, interfaces, Ghost(*te));
            if parts.len() == 0 {
                None
            } else {
                let r = RuntimeType::Union(parts);
                proof {
                    lemma_rts_len(parts@);
                }
                Some(r)
            }
        },
    }
}

proof fn lemma_rts_len(s: Seq<RuntimeType>)
    ensures
        rts(s).len() == s.len(),
    decreases s.len(),
{
    if s.len() > 0 {
        lemma_rts_len(s.drop_last());
    }
}

fn runtime_all(v: &Vec<TypeExpr>, interfaces: &Vec<String>, Ghost(parent): Ghost<TypeExpr>) -> (r: Vec<RuntimeType>)
    requires
        forall|i: int| 0 <= i < v@.len() ==> decreases_to!(parent => #[trigger] v@[i]),
    ensures
        rts(r@) == runtime_parts(tys(v@), interfaces@),
    decreases parent, 0nat,
{
    proof {
        lemma_tys(v@);
    }
    let mut r: Vec<RuntimeType> = Vec::new();
    let mut i: usize = 0;
    while i < v.len()
        invariant
            i <= v@.len(),
            tys(v@).len() == v@.len(),
            forall|k: int| 0 <= k < v@.len() ==> #[trigger] tys(v@)[k] == ty(v@[k]),
            forall|k: int| 0 <= k < v@.len() ==> decreases_to!(parent => #[trigger] v@[k]),
            rts(r@) == runtime_parts(tys(v@).take(i as int), interfaces@),
        decreases v@.len() - i,
    {
        assert(decreases_to!(parent => v@[i as int]));
        proof {
            assert(tys(v@).take(i + 1).drop_last() =~= tys(v@).take(i as int));
            assert(tys(v@).take(i + 1).last() == ty(v@[i as int]));
        }
        if let Some(t) = type_expr_runtime(&v[i], interfaces) {
            proof {
                assert(r@.push(t).drop_last() =~= r@);
            }
            r.push(t);
        }
        i += 1;
    }
    assert(tys(v@).take(v@.len() as int) =~= tys(v@));
    r
}


// ── Well-formed code ────────────────────────────────────────────────────────

/// The instruction `op`, at index `i` of code of length `len`, jumps within
/// the code: forward jumps and rescue handlers land at most at the end,
/// loops at least at the start.
pub open spec fn op_in_range(op: OpCode, i: int, len: int) -> bool {
    match op {
        OpCode::Jump(o) => i + 1 + o <= len,
        OpCode::JumpIfFalse(o) => i + 1 + o <= len,
        OpCode::JumpIfFalseKeep(o) => i + 1 + o <= len,
        OpCode::JumpIfTrueKeep(o) => i + 1 + o <= len,
        OpCode::BeginRescue { handler_offset: o, .. } => i + 1 + o <= len,
        OpCode::Loop(o) => o <= i + 1,
        _ => true,
    }
}

/// Every instruction of `code` jumps within it.
pub open spec fn jumps_in_range(code: Seq<OpCode>) -> bool {
    forall|i: int| 0 <= i < code.len() ==> op_in_range(#[trigger] code[i], i, code.len() as int)
}

/// Code that has every instruction's source line and jumps only within itself.
pub open spec fn code_ok(c: Chunk) -> bool {
    c.wf() && jumps_in_range(c.code@)
}

/// A compiled program: its code jumps only within itself, has a line for
/// each instruction, and ends by returning.
pub open spec fn compiled_program(f: Function) -> bool {
    &&& code_ok(f.chunk)
    &&& f.chunk.code@.len() > 0
    &&& f.chunk.code@.last() == OpCode::Return
}

/// `b` extends `a`: it is at least as long, and each instruction of `a` is
/// still a forward jump, or a rescue entry, where it was one.
pub open spec fn grows(a: Seq<OpCode>, b: Seq<OpCode>) -> bool {
    a.len() <= b.len() && forall|i: int|
        0 <= i < a.len() ==> (is_forward_jump(#[trigger] a[i]) ==> is_forward_jump(b[i])) && (a[i] is BeginRescue
            ==> b[i] is BeginRescue)
}

// ── Per-function compiler state ─────────────────────────────────────────────

struct LocalInfo {
    name: String,
    captured: bool,
}

struct UpvalueInfo {
    is_local: bool,
    index: usize,
}

struct LoopCtx {
    start: usize,
    break_jumps: Vec<usize>,
}

struct FunctionState {
    chunk: Chunk,
    current_line: u32,
    current_column: u32,
    locals: Vec<LocalInfo>,
    upvalue_defs: Vec<UpvalueInfo>,
    name: String,
    arity: usize,
    super_method_name: Option<String>,
    loop_stack: Vec<LoopCtx>,
    return_type: Option<RuntimeType>,
    param_types: Vec<Option<RuntimeType>>,
}

impl FunctionState {
    fn new(name: &str, arity: usize, line: u32) -> (fs: FunctionState)
        ensures
            code_ok(fs.chunk),
            fs.chunk.code@.len() == 0,
            fs.chunk.constants@.len() == 0,
            fs.loop_stack@.len() == 0,
            fs.name@ == name@,
            fs.arity == arity,
            fs.current_line == line,
            fs.current_column == 1,
            fs.locals@.len() == 0,
            fs.upvalue_defs@.len() == 0,
            fs.super_method_name is None,
            fs.return_type is None,
            fs.param_types@.len() == 0,
    {
        FunctionState {
            chunk: Chunk::new(),
            current_line: line,
            current_column: 1,
            locals: Vec::new(),
            upvalue_defs: Vec::new(),
            name: String::from_str(name),
            arity,
            super_method_name: None,
            loop_stack: Vec::new(),
            return_type: None,
            param_types: Vec::new(),
        }
    }
}

/// A loop's recorded start and pending breaks lie within the code.
spec fn loops_ok(fs: FunctionState) -> bool {
    forall|k: int| 0 <= k < fs.loop_stack@.len() ==> {
        &&& (#[trigger] fs.loop_stack@[k]).start <= fs.chunk.code@.len()
        &&& forall|b: int| 0 <= b < fs.loop_stack@[k].break_jumps@.len() ==> {
            &&& (#[trigger] fs.loop_stack@[k].break_jumps@[b]) < fs.chunk.code@.len()
            &&& is_forward_jump(fs.chunk.code@[fs.loop_stack@[k].break_jumps@[b] as int])
        }
    }
}

spec fn frame_ok(fs: FunctionState) -> bool {
    code_ok(fs.chunk) && loops_ok(fs)
}

/// The compiler: a stack of functions being compiled, the innermost last.
pub struct Compiler {
    states: Vec<FunctionState>,
    global_mode: bool,
    has_imports: bool,
    enclosing_class_stack: Vec<String>,
    type_aliases: Vec<(String, TypeExpr)>,
    interfaces: Vec<String>,
}

impl Compiler {
    spec fn inv(&self) -> bool {
        &&& self.states@.len() >= 1
        &&& forall|d: int| 0 <= d < self.states@.len() ==> frame_ok(#[trigger] self.states@[d])
    }

    spec fn top_code(&self) -> Seq<OpCode> {
        self.states@.last().chunk.code@
    }

    /// What every compiling step keeps: the compiler stays well formed, and
    /// on success the function stack is as it was, the code below the top is
    /// untouched, and the top code has only grown.
    spec fn step(old: &Compiler, new: &Compiler, ok: bool) -> bool {
        &&& new.inv()
        &&& ok ==> {
            &&& new.states@.len() == old.states@.len()
            &&& grows(old.top_code(), new.top_code())
            &&& forall|d: int| 0 <= d < old.states@.len() - 1 ==> (#[trigger] new.states@[d]).chunk.code@
                == old.states@[d].chunk.code@ && new.states@[d].loop_stack == old.states@[d].loop_stack
            &&& new.states@.last().loop_stack@.len() == old.states@.last().loop_stack@.len()
        }
    }

    fn new(global_mode: bool, has_imports: bool) -> (c: Compiler)
        ensures
            c.states@.len() == 0,
    {
        Compiler {
            states: Vec::new(),
            global_mode,
            has_imports,
            enclosing_class_stack: Vec::new(),
            type_aliases: Vec::new(),
            interfaces: Vec::new(),
        }
    }

    fn take_top(&mut self) -> (fs: FunctionState)
        requires
            old(self).inv(),
        ensures
            fs == old(self).states@.last(),
            final(self).states@ == old(self).states@.drop_last(),
            final(self).type_aliases == old(self).type_aliases,
            final(self).interfaces == old(self).interfaces,
            final(self).global_mode == old(self).global_mode,
            final(self).has_imports == old(self).has_imports,
            final(self).enclosing_class_stack == old(self).enclosing_class_stack,
            frame_ok(fs),
            forall|d: int| 0 <= d < final(self).states@.len() ==> frame_ok(#[trigger] final(self).states@[d]),
    {
        let fs = self.states.pop().unwrap();
        proof {
            assert(self.states@ =~= old(self).states@.drop_last());
            assert forall|d: int| 0 <= d < self.states@.len() implies frame_ok(#[trigger] self.states@[d]) by {
                assert(self.states@[d] == old(self).states@[d]);
            }
        }
        fs
    }

    fn put_top(&mut self, fs: FunctionState)
        requires
            frame_ok(fs),
            forall|d: int| 0 <= d < old(self).states@.len() ==> frame_ok(#[trigger] old(self).states@[d]),
        ensures
            final(self).states@ == old(self).states@.push(fs),
            final(self).inv(),
            final(self).type_aliases == old(self).type_aliases,
            final(self).interfaces == old(self).interfaces,
            final(self).global_mode == old(self).global_mode,
            final(self).has_imports == old(self).has_imports,
            final(self).enclosing_class_stack == old(self).enclosing_class_stack,
    {
        self.states.push(fs);
        proof {
            assert forall|d: int| 0 <= d < self.states@.len() implies frame_ok(#[trigger] self.states@[d]) by {
                if d < old(self).states@.len() {
                    assert(self.states@[d] == old(self).states@[d]);
                }
            }
        }
    }
}

proof fn lemma_push_op(code: Seq<OpCode>, op: OpCode)
    requires
        jumps_in_range(code),
        op_in_range(op, code.len() as int, code.len() + 1 as int),
    ensures
        jumps_in_range(code.push(op)),
        grows(code, code.push(op)),
{
    let c2 = code.push(op);
    assert forall|i: int| 0 <= i < c2.len() implies op_in_range(#[trigger] c2[i], i, c2.len() as int) by {
        if i < code.len() {
            assert(c2[i] == code[i]);
            assert(op_in_range(code[i], i, code.len() as int));
        }
    }
}

/// An instruction that may be emitted as is: any forward jump or rescue
/// entry has offset zero, to be patched later.
pub open spec fn emittable(op: OpCode) -> bool {
    match op {
        OpCode::Jump(o) => o == 0,
        OpCode::JumpIfFalse(o) => o == 0,
        OpCode::JumpIfFalseKeep(o) => o == 0,
        OpCode::JumpIfTrueKeep(o) => o == 0,
        OpCode::BeginRescue { handler_offset: o, .. } => o == 0,
        OpCode::Loop(_) => false,
        _ => true,
    }
}

impl Compiler {
    fn emit(&mut self, op: OpCode)
        requires
            old(self).inv(),
            emittable(op),
        ensures
            Compiler::step(old(self), final(self), true),
            final(self).inv(),
            final(self).states@.len() == old(self).states@.len(),
            final(self).top_code() == old(self).top_code().push(op),
            grows(old(self).top_code(), final(self).top_code()),
            forall|d: int| 0 <= d < old(self).states@.len() - 1 ==> (#[trigger] final(self).states@[d]) == old(self).states@[d],
            final(self).states@.last().loop_stack == old(self).states@.last().loop_stack,
            final(self).states@.last().locals == old(self).states@.last().locals,
            final(self).states@.last().chunk.constants@ == old(self).states@.last().chunk.constants@,
            final(self).type_aliases == old(self).type_aliases,
            final(self).interfaces == old(self).interfaces,
            final(self).global_mode == old(self).global_mode,
            final(self).has_imports == old(self).has_imports,
            final(self).enclosing_class_stack == old(self).enclosing_class_stack,
    {
        let mut fs = self.take_top();
        let line = fs.current_line;
        let ghost c0 = fs.chunk.code@;
        proof {
            lemma_push_op(c0, op);
        }
        fs.chunk.write(op, line);
        proof {
            assert(loops_ok(fs)) by {
                assert forall|k: int| 0 <= k < fs.loop_stack@.len() implies {
                    &&& (#[trigger] fs.loop_stack@[k]).start <= fs.chunk.code@.len()
                    &&& forall|b: int| 0 <= b < fs.loop_stack@[k].break_jumps@.len() ==> {
                        &&& (#[trigger] fs.loop_stack@[k].break_jumps@[b]) < fs.chunk.code@.len()
                        &&& is_forward_jump(fs.chunk.code@[fs.loop_stack@[k].break_jumps@[b] as int])
                    }
                } by {
                    assert forall|b: int| 0 <= b < fs.loop_stack@[k].break_jumps@.len() implies {
                        &&& (#[trigger] fs.loop_stack@[k].break_jumps@[b]) < fs.chunk.code@.len()
                        &&& is_forward_jump(fs.chunk.code@[fs.loop_stack@[k].break_jumps@[b] as int])
                    } by {
                        let j = fs.loop_stack@[k].break_jumps@[b] as int;
                        assert(fs.chunk.code@[j] == c0[j]);
                    }
                }
            }
        }
        self.put_top(fs);
    }
}


/// The function stacks `a` and `b` hold the same code and loops, frame by frame.
spec fn same_code(a: Seq<FunctionState>, b: Seq<FunctionState>) -> bool {
    a.len() == b.len() && forall|d: int|
        0 <= d < a.len() ==> (#[trigger] b[d]).chunk.code@ == a[d].chunk.code@ && b[d].chunk.lines@
            == a[d].chunk.lines@ && b[d].loop_stack == a[d].loop_stack
}

fn placeholder_state() -> (fs: FunctionState)
    ensures
        fs.chunk.code@.len() == 0,
        fs.chunk.constants@.len() == 0,
        fs.chunk.lines@.len() == 0,
        fs.current_line == 0,
        fs.current_column == 0,
        fs.locals@.len() == 0,
        fs.upvalue_defs@.len() == 0,
        fs.name@.len() == 0,
        fs.arity == 0,
        fs.super_method_name is None,
        fs.loop_stack@.len() == 0,
        fs.return_type is None,
        fs.param_types@.len() == 0,
{
    FunctionState {
        chunk: Chunk::new(),
        current_line: 0,
        current_column: 0,
        locals: Vec::new(),
        upvalue_defs: Vec::new(),
        name: String::new(),
        arity: 0,
        super_method_name: None,
        loop_stack: Vec::new(),
        return_type: None,
        param_types: Vec::new(),
    }
}

fn first_is_uppercase(name: &str) -> (r: bool)
    ensures
        r == (name@.len() > 0 && is_uppercase_char(name@[0])),
{
    let cs = str_to_chars(name);
    cs.len() > 0 && char_is_uppercase(cs[0])
}

impl Compiler {
    /// Add a constant to the function being compiled; its index.
    fn add_const(&mut self, c: Constant) -> (idx: usize)
        requires
            old(self).inv(),
        ensures
            idx == old(self).states@.last().chunk.constants@.len(),
            final(self).states@.last().chunk.constants@ == old(self).states@.last().chunk.constants@.push(c),
            Compiler::step(old(self), final(self), true),
            final(self).inv(),
            same_code(old(self).states@, final(self).states@),
            final(self).states@.last().locals == old(self).states@.last().locals,
            forall|d: int| 0 <= d < old(self).states@.len() - 1 ==> (#[trigger] final(self).states@[d]) == old(self).states@[d],
            final(self).type_aliases == old(self).type_aliases,
            final(self).interfaces == old(self).interfaces,
            final(self).global_mode == old(self).global_mode,
            final(self).has_imports == old(self).has_imports,
            final(self).enclosing_class_stack == old(self).enclosing_class_stack,
    {
        let mut fs = self.take_top();
        let idx = fs.chunk.add_constant(c);
        self.put_top(fs);
        proof {
            assert forall|d: int| 0 <= d < old(self).states@.len() implies (#[trigger] self.states@[d]).chunk.code@
                == old(self).states@[d].chunk.code@ && self.states@[d].chunk.lines@ == old(self).states@[d].chunk.lines@
                && self.states@[d].loop_stack == old(self).states@[d].loop_stack by {
                if d < old(self).states@.len() - 1 {
                    assert(self.states@[d] == old(self).states@[d]);
                }
            }
        }
        idx
    }

    fn add_str(&mut self, s: String) -> (idx: usize)
        requires
            old(self).inv(),
        ensures
            idx == old(self).states@.last().chunk.constants@.len(),
            final(self).states@.last().chunk.constants@ == old(self).states@.last().chunk.constants@.push(Constant::Str(s)),
            Compiler::step(old(self), final(self), true),
            final(self).inv(),
            same_code(old(self).states@, final(self).states@),
            final(self).states@.last().locals == old(self).states@.last().locals,
            forall|d: int| 0 <= d < old(self).states@.len() - 1 ==> (#[trigger] final(self).states@[d]) == old(self).states@[d],
            final(self).type_aliases == old(self).type_aliases,
            final(self).interfaces == old(self).interfaces,
            final(self).global_mode == old(self).global_mode,
            final(self).has_imports == old(self).has_imports,
            final(self).enclosing_class_stack == old(self).enclosing_class_stack,
    {
        self.add_const(Constant::Str(s))
    }

    fn code_len(&self) -> (n: usize)
        requires
            self.inv(),
        ensures
            n == self.top_code().len(),
    {
        let k = self.states.len() - 1;
        self.states[k].chunk.code.len()
    }

    fn emit_jump(&mut self, op: OpCode) -> (idx: usize)
        requires
            old(self).inv(),
            is_forward_jump(op),
            emittable(op),
        ensures
            Compiler::step(old(self), final(self), true),
            final(self).inv(),
            idx == old(self).top_code().len(),
            final(self).states@.len() == old(self).states@.len(),
            final(self).top_code() == old(self).top_code().push(op),
            final(self).states@.last().chunk.constants@ == old(self).states@.last().chunk.constants@,
            grows(old(self).top_code(), final(self).top_code()),
            forall|d: int| 0 <= d < old(self).states@.len() - 1 ==> (#[trigger] final(self).states@[d]) == old(self).states@[d],
            final(self).states@.last().loop_stack == old(self).states@.last().loop_stack,
            final(self).states@.last().locals == old(self).states@.last().locals,
            final(self).type_aliases == old(self).type_aliases,
            final(self).interfaces == old(self).interfaces,
            final(self).global_mode == old(self).global_mode,
            final(self).has_imports == old(self).has_imports,
            final(self).enclosing_class_stack == old(self).enclosing_class_stack,
    {
        let idx = self.code_len();
        self.emit(op);
        idx
    }

    fn patch_jump(&mut self, jump_idx: usize)
        requires
            old(self).inv(),
            jump_idx < old(self).top_code().len(),
            is_forward_jump(old(self).top_code()[jump_idx as int]),
        ensures
            Compiler::step(old(self), final(self), true),
            final(self).inv(),
            final(self).states@.len() == old(self).states@.len(),
            final(self).top_code().len() == old(self).top_code().len(),
            final(self).states@.last().chunk.constants@ == old(self).states@.last().chunk.constants@,
            final(self).top_code() == old(self).top_code().update(
                jump_idx as int,
                with_jump_offset(old(self).top_code()[jump_idx as int], (old(self).top_code().len() - jump_idx - 1) as usize),
            ),
            grows(old(self).top_code(), final(self).top_code()),
            forall|d: int| 0 <= d < old(self).states@.len() - 1 ==> (#[trigger] final(self).states@[d]) == old(self).states@[d],
            final(self).states@.last().loop_stack == old(self).states@.last().loop_stack,
            final(self).states@.last().locals == old(self).states@.last().locals,
            final(self).type_aliases == old(self).type_aliases,
            final(self).interfaces == old(self).interfaces,
            final(self).global_mode == old(self).global_mode,
            final(self).has_imports == old(self).has_imports,
            final(self).enclosing_class_stack == old(self).enclosing_class_stack,
    {
        let mut fs = self.take_top();
        let ghost c0 = fs.chunk.code@;
        fs.chunk.patch_jump(jump_idx);
        proof {
            let c1 = fs.chunk.code@;
            assert forall|i: int| 0 <= i < c1.len() implies op_in_range(#[trigger] c1[i], i, c1.len() as int) by {
                if i != jump_idx {
                    assert(c1[i] == c0[i]);
                    assert(op_in_range(c0[i], i, c0.len() as int));
                }
            }
            assert forall|k: int| 0 <= k < fs.loop_stack@.len() implies {
                &&& (#[trigger] fs.loop_stack@[k]).start <= fs.chunk.code@.len()
                &&& forall|b: int| 0 <= b < fs.loop_stack@[k].break_jumps@.len() ==> {
                    &&& (#[trigger] fs.loop_stack@[k].break_jumps@[b]) < fs.chunk.code@.len()
                    &&& is_forward_jump(fs.chunk.code@[fs.loop_stack@[k].break_jumps@[b] as int])
                }
            } by {
                assert forall|b: int| 0 <= b < fs.loop_stack@[k].break_jumps@.len() implies {
                    &&& (#[trigger] fs.loop_stack@[k].break_jumps@[b]) < fs.chunk.code@.len()
                    &&& is_forward_jump(fs.chunk.code@[fs.loop_stack@[k].break_jumps@[b] as int])
                } by {
                    let j = fs.loop_stack@[k].break_jumps@[b] as int;
                    if j != jump_idx {
                        assert(c1[j] == c0[j]);
                    }
                }
            }
        }
        self.put_top(fs);
    }

    fn emit_begin_rescue(&mut self, rescue_var_slot: usize) -> (idx: usize)
        requires
            old(self).inv(),
        ensures
            Compiler::step(old(self), final(self), true),
            final(self).inv(),
            idx == old(self).top_code().len(),
            final(self).states@.len() == old(self).states@.len(),
            final(self).top_code().len() == old(self).top_code().len() + 1,
            final(self).top_code()[idx as int] is BeginRescue,
            grows(old(self).top_code(), final(self).top_code()),
            forall|d: int| 0 <= d < old(self).states@.len() - 1 ==> (#[trigger] final(self).states@[d]) == old(self).states@[d],
            final(self).states@.last().loop_stack == old(self).states@.last().loop_stack,
            final(self).states@.last().locals == old(self).states@.last().locals,
            final(self).type_aliases == old(self).type_aliases,
            final(self).interfaces == old(self).interfaces,
            final(self).global_mode == old(self).global_mode,
            final(self).has_imports == old(self).has_imports,
            final(self).enclosing_class_stack == old(self).enclosing_class_stack,
    {
        let idx = self.code_len();
        self.emit(OpCode::BeginRescue { handler_offset: 0, rescue_var_slot });
        idx
    }

    fn patch_rescue(&mut self, begin_idx: usize)
        requires
            old(self).inv(),
            begin_idx < old(self).top_code().len(),
            old(self).top_code()[begin_idx as int] is BeginRescue,
        ensures
            Compiler::step(old(self), final(self), true),
            final(self).inv(),
            final(self).states@.len() == old(self).states@.len(),
            final(self).top_code().len() == old(self).top_code().len(),
            final(self).top_code() == old(self).top_code().update(
                begin_idx as int,
                OpCode::BeginRescue {
                    handler_offset: (old(self).top_code().len() - begin_idx - 1) as usize,
                    rescue_var_slot: old(self).top_code()[begin_idx as int]->rescue_var_slot,
                },
            ),
            grows(old(self).top_code(), final(self).top_code()),
            forall|d: int| 0 <= d < old(self).states@.len() - 1 ==> (#[trigger] final(self).states@[d]) == old(self).states@[d],
            final(self).states@.last().loop_stack == old(self).states@.last().loop_stack,
            final(self).states@.last().locals == old(self).states@.last().locals,
            final(self).type_aliases == old(self).type_aliases,
            final(self).interfaces == old(self).interfaces,
            final(self).global_mode == old(self).global_mode,
            final(self).has_imports == old(self).has_imports,
            final(self).enclosing_class_stack == old(self).enclosing_class_stack,
    {
        let mut fs = self.take_top();
        let ghost c0 = fs.chunk.code@;
        fs.chunk.patch_rescue(begin_idx);
        proof {
            let c1 = fs.chunk.code@;
            assert forall|i: int| 0 <= i < c1.len() implies op_in_range(#[trigger] c1[i], i, c1.len() as int) by {
                if i != begin_idx {
                    assert(c1[i] == c0[i]);
                    assert(op_in_range(c0[i], i, c0.len() as int));
                }
            }
            assert forall|k: int| 0 <= k < fs.loop_stack@.len() implies {
                &&& (#[trigger] fs.loop_stack@[k]).start <= fs.chunk.code@.len()
                &&& forall|b: int| 0 <= b < fs.loop_stack@[k].break_jumps@.len() ==> {
                    &&& (#[trigger] fs.loop_stack@[k].break_jumps@[b]) < fs.chunk.code@.len()
                    &&& is_forward_jump(fs.chunk.code@[fs.loop_stack@[k].break_jumps@[b] as int])
                }
            } by {
                assert forall|b: int| 0 <= b < fs.loop_stack@[k].break_jumps@.len() implies {
                    &&& (#[trigger] fs.loop_stack@[k].break_jumps@[b]) < fs.chunk.code@.len()
                    &&& is_forward_jump(fs.chunk.code@[fs.loop_stack@[k].break_jumps@[b] as int])
                } by {
                    let j = fs.loop_stack@[k].break_jumps@[b] as int;
                    if j != begin_idx {
                        assert(c1[j] == c0[j]);
                    }
                }
            }
        }
        self.put_top(fs);
    }

    /// Emit a backward jump to `loop_start`.
    fn emit_loop(&mut self, loop_start: usize) -> (res: Result<(), CompileError>)
        requires
            old(self).inv(),
            loop_start <= old(self).top_code().len(),
        ensures
            final(self).inv(),
            res is Err <==> old(self).top_code().len() - loop_start == usize::MAX,
            res is Ok ==> final(self).top_code() == old(self).top_code().push(
                OpCode::Loop((old(self).top_code().len() - loop_start + 1) as usize),
            ),
            res is Ok ==> final(self).states@.last().chunk.constants@ == old(self).states@.last().chunk.constants@,
            res is Ok ==> {
                &&& Compiler::step(old(self), final(self), true)
                &&& final(self).states@.len() == old(self).states@.len()
                &&& final(self).top_code().len() == old(self).top_code().len() + 1
                &&& grows(old(self).top_code(), final(self).top_code())
                &&& forall|d: int| 0 <= d < old(self).states@.len() - 1 ==> (#[trigger] final(self).states@[d]) == old(self).states@[d]
                &&& final(self).states@.last().loop_stack == old(self).states@.last().loop_stack
                &&& final(self).states@.last().locals == old(self).states@.last().locals
            },
            res is Err ==> *final(self) == *old(self),
            final(self).type_aliases == old(self).type_aliases,
            final(self).interfaces == old(self).interfaces,
            final(self).global_mode == old(self).global_mode,
            final(self).has_imports == old(self).has_imports,
            final(self).enclosing_class_stack == old(self).enclosing_class_stack,
    {
        let len = self.code_len();
        if len - loop_start == usize::MAX {
            return Err(self.error(String::from_str("code too large")));
        }
        let offset = (len - loop_start) + 1;
        let mut fs = self.take_top();
        let line = fs.current_line;
        let ghost c0 = fs.chunk.code@;
        proof {
            lemma_push_op(c0, OpCode::Loop(offset));
        }
        fs.chunk.write(OpCode::Loop(offset), line);
        proof {
            assert forall|k: int| 0 <= k < fs.loop_stack@.len() implies {
                &&& (#[trigger] fs.loop_stack@[k]).start <= fs.chunk.code@.len()
                &&& forall|b: int| 0 <= b < fs.loop_stack@[k].break_jumps@.len() ==> {
                    &&& (#[trigger] fs.loop_stack@[k].break_jumps@[b]) < fs.chunk.code@.len()
                    &&& is_forward_jump(fs.chunk.code@[fs.loop_stack@[k].break_jumps@[b] as int])
                }
            } by {
                assert forall|b: int| 0 <= b < fs.loop_stack@[k].break_jumps@.len() implies {
                    &&& (#[trigger] fs.loop_stack@[k].break_jumps@[b]) < fs.chunk.code@.len()
                    &&& is_forward_jump(fs.chunk.code@[fs.loop_stack@[k].break_jumps@[b] as int])
                } by {
                    let j = fs.loop_stack@[k].break_jumps@[b] as int;
                    assert(fs.chunk.code@[j] == c0[j]);
                }
            }
        }
        self.put_top(fs);
        Ok(())
    }

    /// An error at the current position of the function being compiled.
    fn error(&self, message: String) -> (e: CompileError)
        requires
            self.inv(),
        ensures
            e.message == message,
    {
        let k = self.states.len() - 1;
        CompileError { message, line: self.states[k].current_line, column: self.states[k].current_column }
    }

    fn current_line(&self) -> (l: u32)
        requires
            self.inv(),
    {
        let k = self.states.len() - 1;
        self.states[k].current_line
    }

    fn set_position(&mut self, line: u32, column: Option<u32>)
        requires
            old(self).inv(),
        ensures
            final(self).states@.last().current_line == line,
            final(self).states@.last().chunk == old(self).states@.last().chunk,
            final(self).states@.last().current_column == match column {
                Some(c) => c,
                None => old(self).states@.last().current_column,
            },
            Compiler::step(old(self), final(self), true),
            final(self).inv(),
            same_code(old(self).states@, final(self).states@),
            final(self).states@.last().locals == old(self).states@.last().locals,
            forall|d: int| 0 <= d < old(self).states@.len() - 1 ==> (#[trigger] final(self).states@[d]) == old(self).states@[d],
            final(self).type_aliases == old(self).type_aliases,
            final(self).interfaces == old(self).interfaces,
            final(self).global_mode == old(self).global_mode,
            final(self).has_imports == old(self).has_imports,
            final(self).enclosing_class_stack == old(self).enclosing_class_stack,
    {
        let mut fs = self.take_top();
        fs.current_line = line;
        if let Some(c) = column {
            fs.current_column = c;
        }
        self.put_top(fs);
        proof {
            assert forall|d: int| 0 <= d < old(self).states@.len() implies (#[trigger] self.states@[d]).chunk.code@
                == old(self).states@[d].chunk.code@ && self.states@[d].chunk.lines@ == old(self).states@[d].chunk.lines@
                && self.states@[d].loop_stack == old(self).states@[d].loop_stack by {
                if d < old(self).states@.len() - 1 {
                    assert(self.states@[d] == old(self).states@[d]);
                }
            }
        }
    }

    /// Add a local slot named `name` to the function being compiled; its slot.
    fn push_local(&mut self, name: String) -> (slot: usize)
        requires
            old(self).inv(),
        ensures
            Compiler::step(old(self), final(self), true),
            final(self).inv(),
            same_code(old(self).states@, final(self).states@),
            slot == old(self).states@.last().locals@.len(),
            final(self).states@.last().locals@.len() == old(self).states@.last().locals@.len() + 1,
            final(self).states@.last().locals@ == old(self).states@.last().locals@.push(LocalInfo { name, captured: false }),
            forall|d: int| 0 <= d < old(self).states@.len() - 1 ==> (#[trigger] final(self).states@[d]) == old(self).states@[d],
            final(self).type_aliases == old(self).type_aliases,
            final(self).interfaces == old(self).interfaces,
            final(self).global_mode == old(self).global_mode,
            final(self).has_imports == old(self).has_imports,
            final(self).enclosing_class_stack == old(self).enclosing_class_stack,
    {
        let mut fs = self.take_top();
        let slot = fs.locals.len();
        fs.locals.push(LocalInfo { name, captured: false });
        self.put_top(fs);
        proof {
            assert forall|d: int| 0 <= d < old(self).states@.len() implies (#[trigger] self.states@[d]).chunk.code@
                == old(self).states@[d].chunk.code@ && self.states@[d].chunk.lines@ == old(self).states@[d].chunk.lines@
                && self.states@[d].loop_stack == old(self).states@[d].loop_stack by {
                if d < old(self).states@.len() - 1 {
                    assert(self.states@[d] == old(self).states@[d]);
                }
            }
        }
        slot
    }

    /// Rename the local in `slot` of the function being compiled.
    fn rename_local(&mut self, slot: usize, name: String)
        requires
            old(self).inv(),
        ensures
            final(self).states@.last().locals@ == if slot < old(self).states@.last().locals@.len() {
                old(self).states@.last().locals@.update(
                    slot as int,
                    LocalInfo { name, captured: old(self).states@.last().locals@[slot as int].captured },
                )
            } else {
                old(self).states@.last().locals@
            },
            Compiler::step(old(self), final(self), true),
            final(self).inv(),
            same_code(old(self).states@, final(self).states@),
            final(self).states@.last().locals@.len() == old(self).states@.last().locals@.len(),
            forall|d: int| 0 <= d < old(self).states@.len() - 1 ==> (#[trigger] final(self).states@[d]) == old(self).states@[d],
            final(self).type_aliases == old(self).type_aliases,
            final(self).interfaces == old(self).interfaces,
            final(self).global_mode == old(self).global_mode,
            final(self).has_imports == old(self).has_imports,
            final(self).enclosing_class_stack == old(self).enclosing_class_stack,
    {
        let mut fs = self.take_top();
        if slot < fs.locals.len() {
            let captured = fs.locals[slot].captured;
            fs.locals.set(slot, LocalInfo { name, captured });
        }
        self.put_top(fs);
        proof {
            assert forall|d: int| 0 <= d < old(self).states@.len() implies (#[trigger] self.states@[d]).chunk.code@
                == old(self).states@[d].chunk.code@ && self.states@[d].chunk.lines@ == old(self).states@[d].chunk.lines@
                && self.states@[d].loop_stack == old(self).states@[d].loop_stack by {
                if d < old(self).states@.len() - 1 {
                    assert(self.states@[d] == old(self).states@[d]);
                }
            }
        }
    }

    fn locals_len(&self) -> (n: usize)
        requires
            self.inv(),
        ensures
            n == self.states@.last().locals@.len(),
    {
        let k = self.states.len() - 1;
        self.states[k].locals.len()
    }

    /// The slot of the latest local named `name` in the function at `depth`.
    fn resolve_local(&self, depth: usize, name: &str) -> (r: Option<usize>)
        requires
            depth < self.states@.len(),
        ensures
            match r {
                Some(i) => {
                    &&& i < self.states@[depth as int].locals@.len()
                    &&& self.states@[depth as int].locals@[i as int].name@ == name@
                    &&& forall|j: int|
                        i < j < self.states@[depth as int].locals@.len() ==> (#[trigger] self.states@[depth as int].locals@[j]).name@
                            != name@
                },
                None => forall|j: int|
                    0 <= j < self.states@[depth as int].locals@.len() ==> (#[trigger] self.states@[depth as int].locals@[j]).name@
                        != name@,
            },
    {
        let locals = &self.states[depth].locals;
        assert(locals@ == self.states@[depth as int].locals@);
        let mut i = locals.len();
        while i > 0
            invariant
                i <= locals@.len(),
                locals@ == self.states@[depth as int].locals@,
                forall|j: int| i <= j < locals@.len() ==> (#[trigger] locals@[j]).name@ != name@,
            decreases i,
        {
            i -= 1;
            if str_eq(locals[i].name.as_str(), name) {
                return Some(i);
            }
        }
        None
    }

    /// Whether `name` would be captured from an enclosing function of the one
    /// at `depth`.
    fn would_be_upvalue(&self, depth: usize, name: &str) -> (r: bool)
        requires
            depth < self.states@.len(),
        ensures
            r == upvalue_reachable(self.states@, depth as int, name@),
        decreases depth,
    {
        if depth == 0 {
            return false;
        }
        let parent = depth - 1;
        self.resolve_local(parent, name).is_some() || self.would_be_upvalue(parent, name)
    }

    /// Mark the local `slot` of the function at `depth` as captured.
    fn mark_captured(&mut self, depth: usize, slot: usize)
        requires
            old(self).inv(),
            depth < old(self).states@.len(),
        ensures
            Compiler::step(old(self), final(self), true),
            final(self).inv(),
            same_code(old(self).states@, final(self).states@),
            final(self).type_aliases == old(self).type_aliases,
            final(self).interfaces == old(self).interfaces,
            final(self).global_mode == old(self).global_mode,
            final(self).has_imports == old(self).has_imports,
            final(self).enclosing_class_stack == old(self).enclosing_class_stack,
            forall|d: int| 0 <= d < old(self).states@.len() ==> (#[trigger] final(self).states@[d]).locals@.len() == old(self).states@[d].locals@.len(),
            forall|d: int| 0 <= d < old(self).states@.len() && d != depth ==> (#[trigger] final(self).states@[d]) == old(self).states@[d],
            final(self).states@.len() == old(self).states@.len(),
            final(self).states@[depth as int].locals@ == if slot < old(self).states@[depth as int].locals@.len() {
                old(self).states@[depth as int].locals@.update(
                    slot as int,
                    LocalInfo { name: old(self).states@[depth as int].locals@[slot as int].name, captured: true },
                )
            } else {
                old(self).states@[depth as int].locals@
            },
            final(self).states@[depth as int].upvalue_defs == old(self).states@[depth as int].upvalue_defs,
    {
        let mut st = placeholder_state();
        std::mem::swap(&mut st, &mut self.states[depth]);
        if slot < st.locals.len() {
            let name = st.locals[slot].name.clone();
            st.locals.set(slot, LocalInfo { name, captured: true });
        }
        self.states.set(depth, st);
        proof {
            assert forall|d: int| 0 <= d < self.states@.len() implies frame_ok(#[trigger] self.states@[d]) by {
                if d != depth {
                    assert(self.states@[d] == old(self).states@[d]);
                } else {
                    assert(self.states@[d].chunk == old(self).states@[d].chunk);
                    assert(self.states@[d].loop_stack == old(self).states@[d].loop_stack);
                    assert(frame_ok(old(self).states@[d]));
                }
            }
        }
    }

    /// The upvalue of the function at `depth` capturing `(is_local, index)`,
    /// added when it is not there yet.
    fn add_upvalue(&mut self, depth: usize, is_local: bool, index: usize) -> (r: usize)
        requires
            old(self).inv(),
            depth < old(self).states@.len(),
        ensures
            Compiler::step(old(self), final(self), true),
            final(self).inv(),
            same_code(old(self).states@, final(self).states@),
            final(self).type_aliases == old(self).type_aliases,
            final(self).interfaces == old(self).interfaces,
            final(self).global_mode == old(self).global_mode,
            final(self).has_imports == old(self).has_imports,
            final(self).enclosing_class_stack == old(self).enclosing_class_stack,
            forall|d: int| 0 <= d < old(self).states@.len() ==> (#[trigger] final(self).states@[d]).locals@.len() == old(self).states@[d].locals@.len(),
            forall|d: int| 0 <= d < old(self).states@.len() && d != depth ==> (#[trigger] final(self).states@[d]) == old(self).states@[d],
            final(self).states@.len() == old(self).states@.len(),
            final(self).states@[depth as int].locals == old(self).states@[depth as int].locals,
            r < final(self).states@[depth as int].upvalue_defs@.len(),
            final(self).states@[depth as int].upvalue_defs@[r as int] == (UpvalueInfo { is_local, index }),
            if exists|j: int|
                0 <= j < old(self).states@[depth as int].upvalue_defs@.len()
                    && #[trigger] old(self).states@[depth as int].upvalue_defs@[j] == (UpvalueInfo { is_local, index }) {
                &&& final(self).states@[depth as int].upvalue_defs == old(self).states@[depth as int].upvalue_defs
                &&& forall|j: int| 0 <= j < r ==> #[trigger] old(self).states@[depth as int].upvalue_defs@[j] != (UpvalueInfo { is_local, index })
            } else {
                &&& final(self).states@[depth as int].upvalue_defs@ == old(self).states@[depth as int].upvalue_defs@.push(UpvalueInfo { is_local, index })
                &&& r == old(self).states@[depth as int].upvalue_defs@.len()
            },
    {
        let mut st = placeholder_state();
        std::mem::swap(&mut st, &mut self.states[depth]);
        let mut i: usize = 0;
        while i < st.upvalue_defs.len() && !(st.upvalue_defs[i].is_local == is_local && st.upvalue_defs[i].index == index)
            invariant
                i <= st.upvalue_defs@.len(),
                st == old(self).states@[depth as int],
                forall|j: int| 0 <= j < i ==> #[trigger] st.upvalue_defs@[j] != (UpvalueInfo { is_local, index }),
            decreases st.upvalue_defs@.len() - i,
        {
            i += 1;
        }
        let found: Option<usize> = if i < st.upvalue_defs.len() {
            proof {
                assert(st.upvalue_defs@[i as int] == (UpvalueInfo { is_local, index }));
            }
            Some(i)
        } else {
            None
        };
        let r = match found {
            Some(k) => k,
            None => {
                let k = st.upvalue_defs.len();
                st.upvalue_defs.push(UpvalueInfo { is_local, index });
                k
            },
        };
        self.states.set(depth, st);
        proof {
            assert forall|d: int| 0 <= d < self.states@.len() implies frame_ok(#[trigger] self.states@[d]) by {
                if d != depth {
                    assert(self.states@[d] == old(self).states@[d]);
                } else {
                    assert(frame_ok(old(self).states@[d]));
                }
            }
        }
        r
    }

    /// Resolve `name` as a variable captured by the function at `depth` from
    /// an enclosing function, recording the capture; its upvalue index.
    fn resolve_upvalue(&mut self, depth: usize, name: &str) -> (r: Option<usize>)
        requires
            old(self).inv(),
            depth < old(self).states@.len(),
        ensures
            r is Some <==> upvalue_reachable(old(self).states@, depth as int, name@),
            final(self).states@.len() == old(self).states@.len(),
            match r {
                Some(k) => {
                    &&& k < final(self).states@[depth as int].upvalue_defs@.len()
                    &&& final(self).states@[depth as int].upvalue_defs@[k as int].is_local
                        == has_local(old(self).states@[depth - 1], name@)
                },
                None => *final(self) == *old(self),
            },
            Compiler::step(old(self), final(self), true),
            final(self).inv(),
            same_code(old(self).states@, final(self).states@),
            final(self).type_aliases == old(self).type_aliases,
            final(self).interfaces == old(self).interfaces,
            final(self).global_mode == old(self).global_mode,
            final(self).has_imports == old(self).has_imports,
            final(self).enclosing_class_stack == old(self).enclosing_class_stack,
            forall|d: int| 0 <= d < old(self).states@.len() ==> (#[trigger] final(self).states@[d]).locals@.len() == old(self).states@[d].locals@.len(),
        decreases depth,
    {
        if depth == 0 {
            return None;
        }
        let parent = depth - 1;
        if let Some(local_idx) = self.resolve_local(parent, name) {
            self.mark_captured(parent, local_idx);
            let r = self.add_upvalue(depth, true, local_idx);
            return Some(r);
        }
        let ghost mid0 = self.states@;
        if let Some(up) = self.resolve_upvalue(parent, name) {
            let r = self.add_upvalue(depth, false, up);
            return Some(r);
        }
        None
    }
}



/// The instruction that loads a literal whose constant, if it needs one,
/// goes at index `k`.
pub open spec fn literal_op(v: Value, k: nat) -> OpCode {
    match v {
        Value::Bool(b) => if b {
            OpCode::True
        } else {
            OpCode::False
        },
        Value::Nil => OpCode::Nil,
        _ => OpCode::Constant(k as usize),
    }
}

/// The view of an optional run-time check.
pub open spec fn opt_rt(r: Option<RuntimeType>) -> Option<RtView> {
    match r {
        Some(x) => Some(rt(x)),
        None => None,
    }
}

/// The run-time check of an optional annotation: its aliases expanded (as
/// deep as there are aliases), the type variables in `tvars` erased.
pub open spec fn annotation_check(
    aliases: Seq<(String, TypeExpr)>,
    te: Option<TypeExpr>,
    tvars: Seq<String>,
    interfaces: Seq<String>,
) -> Option<RtView> {
    match te {
        Some(t) => runtime_of(erased(resolved_ty(aliases, t, aliases.len()), tvars), interfaces),
        None => None,
    }
}

/// The type of the last alias named `x` among `exprs`.
pub open spec fn last_alias(exprs: Seq<Expr>, x: Seq<char>) -> Option<TypeExpr>
    decreases exprs.len(),
{
    if exprs.len() == 0 {
        None
    } else {
        match exprs.last() {
            Expr::TypeAlias { name, type_expr } => if name@ == x {
                Some(type_expr)
            } else {
                last_alias(exprs.drop_last(), x)
            },
            _ => last_alias(exprs.drop_last(), x),
        }
    }
}

/// The instruction of a unary operator the compiler supports.
pub open spec fn unary_code(k: TokenKind) -> Option<OpCode> {
    match k {
        TokenKind::Minus => Some(OpCode::Negate),
        TokenKind::Bang => Some(OpCode::Not),
        TokenKind::Tilde => Some(OpCode::BitNot),
        _ => None,
    }
}

/// The instruction of a binary operator that evaluates both operands.
pub open spec fn binary_code(k: TokenKind) -> Option<OpCode> {
    match k {
        TokenKind::Plus => Some(OpCode::Add),
        TokenKind::Minus => Some(OpCode::Sub),
        TokenKind::Star => Some(OpCode::Mul),
        TokenKind::Slash => Some(OpCode::Div),
        TokenKind::Percent => Some(OpCode::Mod),
        TokenKind::Amp => Some(OpCode::BitAnd),
        TokenKind::Pipe => Some(OpCode::BitOr),
        TokenKind::Caret => Some(OpCode::BitXor),
        TokenKind::LessLess => Some(OpCode::Shl),
        TokenKind::GreaterGreater => Some(OpCode::Shr),
        TokenKind::EqEq => Some(OpCode::Equal),
        TokenKind::BangEq => Some(OpCode::NotEqual),
        TokenKind::Less => Some(OpCode::Less),
        TokenKind::LessEq => Some(OpCode::LessEqual),
        TokenKind::Greater => Some(OpCode::Greater),
        TokenKind::GreaterEq => Some(OpCode::GreaterEqual),
        _ => None,
    }
}

/// The constant a literal adds to the pool: numbers and strings get one,
/// booleans and nil none.
pub open spec fn literal_constants(v: Value) -> Seq<Constant> {
    match v {
        Value::Int(n) => seq![Constant::Int(n)],
        Value::Float(t) => seq![Constant::Float(t)],
        Value::Str(t) => seq![Constant::Str(t)],
        _ => Seq::empty(),
    }
}

/// The constants of a sequence of pure expressions, in order.
pub open spec fn program_constants(es: Seq<Expr>) -> Seq<Constant>
    decreases es.len(),
{
    if es.len() == 0 {
        Seq::empty()
    } else {
        program_constants(es.drop_last()) + pure_constants(es.last())
    }
}

/// The code of pure expressions compiled as statements, their constants
/// numbered from `k`: each computes its value and pops it.
pub open spec fn pure_stmts_code(es: Seq<Expr>, k: nat) -> Seq<OpCode>
    decreases es.len(),
{
    if es.len() == 0 {
        Seq::empty()
    } else {
        pure_stmts_code(es.drop_last(), k) + pure_code(es.last(), k + program_constants(es.drop_last()).len()) + seq![
            OpCode::Pop,
        ]
    }
}

/// The code of a program of pure expressions, constants numbered from `k`:
/// every expression but the last as a statement, then the last computed and
/// returned (`nil` for an empty program).
pub open spec fn pure_program_code(es: Seq<Expr>, k: nat) -> Seq<OpCode> {
    if es.len() == 0 {
        seq![OpCode::Nil, OpCode::Return]
    } else {
        pure_stmts_code(es.drop_last(), k) + pure_code(es.last(), k + program_constants(es.drop_last()).len()) + seq![
            OpCode::Return,
        ]
    }
}

/// An expression built from literals with the unary and binary operators
/// that evaluate all their operands, and grouping.
pub open spec fn pure_expr(e: Expr) -> bool
    decreases e,
{
    match e {
        Expr::Literal(_) => true,
        Expr::Grouping(inner) => pure_expr(*inner),
        Expr::Unary { op, right } => unary_code(op.kind) is Some && pure_expr(*right),
        Expr::Binary { left, op, right } => binary_code(op.kind) is Some && pure_expr(*left) && pure_expr(*right),
        _ => false,
    }
}

/// The constants such an expression adds, left to right.
pub open spec fn pure_constants(e: Expr) -> Seq<Constant>
    decreases e,
{
    match e {
        Expr::Literal(v) => literal_constants(v),
        Expr::Grouping(inner) => pure_constants(*inner),
        Expr::Unary { right, .. } => pure_constants(*right),
        Expr::Binary { left, right, .. } => pure_constants(*left) + pure_constants(*right),
        _ => Seq::empty(),
    }
}

/// The code of such an expression, its constants numbered from `k`: the
/// operands in order, then the operator.
pub open spec fn pure_code(e: Expr, k: nat) -> Seq<OpCode>
    decreases e,
{
    match e {
        Expr::Literal(v) => seq![literal_op(v, k)],
        Expr::Grouping(inner) => pure_code(*inner, k),
        Expr::Unary { op, right } => pure_code(*right, k) + seq![unary_code(op.kind)->Some_0],
        Expr::Binary { left, op, right } => pure_code(*left, k) + pure_code(*right, k + pure_constants(*left).len())
            + seq![binary_code(op.kind)->Some_0],
        _ => Seq::empty(),
    }
}

/// The slot of the latest local named `n` among locals named `names`, in
/// slot order; -1 when there is none.
pub open spec fn latest_slot(names: Seq<Seq<char>>, n: Seq<char>) -> int
    decreases names.len(),
{
    if names.len() == 0 {
        -1
    } else if names.last() == n {
        names.len() - 1
    } else {
        latest_slot(names.drop_last(), n)
    }
}

/// A pure expression that may also read locals of the function being
/// compiled, whose names are `names`.
pub open spec fn scoped_expr(e: Expr, names: Seq<Seq<char>>) -> bool
    decreases e,
{
    match e {
        Expr::Literal(_) => true,
        Expr::Variable(n) => names.contains(n@),
        Expr::Grouping(inner) => scoped_expr(*inner, names),
        Expr::Unary { op, right } => unary_code(op.kind) is Some && scoped_expr(*right, names),
        Expr::Binary { left, op, right } => binary_code(op.kind) is Some && scoped_expr(*left, names) && scoped_expr(
            *right,
            names,
        ),
        _ => false,
    }
}

/// The code of such an expression, its constants numbered from `k`: the
/// operands in order, then the operator; a local is read from its latest
/// slot.
pub open spec fn scoped_code(e: Expr, names: Seq<Seq<char>>, k: nat) -> Seq<OpCode>
    decreases e,
{
    match e {
        Expr::Literal(v) => seq![literal_op(v, k)],
        Expr::Variable(n) => seq![OpCode::GetLocal(latest_slot(names, n@) as usize)],
        Expr::Grouping(inner) => scoped_code(*inner, names, k),
        Expr::Unary { op, right } => scoped_code(*right, names, k) + seq![unary_code(op.kind)->Some_0],
        Expr::Binary { left, op, right } => scoped_code(*left, names, k) + scoped_code(
            *right,
            names,
            k + pure_constants(*left).len(),
        ) + seq![binary_code(op.kind)->Some_0],
        _ => Seq::empty(),
    }
}

/// The names of a function's locals, in slot order.
spec fn local_names(fs: FunctionState) -> Seq<Seq<char>> {
    fs.locals@.map_values(|l: LocalInfo| l.name@)
}

proof fn lemma_latest_slot(names: Seq<Seq<char>>, n: Seq<char>, i: int)
    requires
        0 <= i < names.len(),
        names[i] == n,
        forall|j: int| i < j < names.len() ==> names[j] != n,
    ensures
        latest_slot(names, n) == i,
    decreases names.len(),
{
    if i < names.len() - 1 {
        assert(names.drop_last()[i] == n);
        lemma_latest_slot(names.drop_last(), n, i);
    }
}

/// A class with no methods, nested classes or constants, whose superclass,
/// if any, is a plain name.
pub open spec fn plain_class_expr(e: Expr) -> bool {
    e matches Expr::Class { superclass, methods, nested, constants, .. } && methods@.len() == 0 && nested@.len() == 0
        && constants@.len() == 0 && (superclass matches Some(b) ==> *b is Variable)
}

/// An `if` with an `else` whose condition and branches are single pure
/// expressions.
pub open spec fn pure_if(e: Expr) -> bool {
    e matches Expr::If { condition, then_branch, else_branch: Some(es) } && pure_expr(*condition) && then_branch@.len() == 1
        && pure_expr(then_branch@[0]) && es@.len() == 1 && pure_expr(es@[0])
}

/// The constants such an `if` adds: the condition's, then the branches'.
pub open spec fn pure_if_constants(e: Expr) -> Seq<Constant> {
    match e {
        Expr::If { condition, then_branch, else_branch: Some(es) } => pure_constants(*condition) + pure_constants(
            then_branch@[0],
        ) + pure_constants(es@[0]),
        _ => Seq::empty(),
    }
}

/// The code of such an `if`, constants from `k`: the condition, a jump past
/// the `then` branch when it is false, the `then` branch, a jump past the
/// `else` branch, and the `else` branch.
pub open spec fn pure_if_code(e: Expr, k: nat) -> Seq<OpCode> {
    match e {
        Expr::If { condition, then_branch, else_branch: Some(es) } => {
            let c = pure_code(*condition, k);
            let t = pure_code(then_branch@[0], k + pure_constants(*condition).len());
            let f = pure_code(es@[0], k + pure_constants(*condition).len() + pure_constants(then_branch@[0]).len());
            c + seq![OpCode::JumpIfFalse((t.len() + 1) as usize)] + t + seq![OpCode::Jump(f.len() as usize)] + f
        },
        _ => Seq::empty(),
    }
}

/// The function `fs` has a local named `name`.
spec fn has_local(fs: FunctionState, name: Seq<char>) -> bool {
    exists|j: int| 0 <= j < fs.locals@.len() && (#[trigger] fs.locals@[j]).name@ == name
}

/// Some function enclosing the one at `depth` has a local named `name`.
spec fn upvalue_reachable(states: Seq<FunctionState>, depth: int, name: Seq<char>) -> bool
    decreases depth,
{
    if depth <= 0 {
        false
    } else {
        has_local(states[depth - 1], name) || upvalue_reachable(states, depth - 1, name)
    }
}

proof fn lemma_jump_kept(a: Compiler, b: Compiler, j: usize)
    requires
        Compiler::step(&a, &b, true),
        j < a.top_code().len(),
        is_forward_jump(a.top_code()[j as int]),
    ensures
        j < b.top_code().len(),
        is_forward_jump(b.top_code()[j as int]),
{
}

proof fn lemma_nested(a: Compiler, b: Compiler, c: Compiler, d: Compiler)
    requires
        a.inv(),
        b.states@.len() == a.states@.len() + 1,
        forall|i: int| 0 <= i < a.states@.len() ==> (#[trigger] b.states@[i]) == a.states@[i],
        Compiler::step(&b, &c, true),
        d.states@ == c.states@.drop_last(),
        forall|i: int| 0 <= i < d.states@.len() ==> frame_ok(#[trigger] d.states@[i]),
    ensures
        d.inv(),
        Compiler::step(&a, &d, true),
{
    let k = a.states@.len() - 1;
    assert(d.states@[k] == c.states@[k]);
    assert(c.states@[k].chunk.code@ == b.states@[k].chunk.code@);
    assert(b.states@[k] == a.states@[k]);
    assert forall|i: int| 0 <= i < a.states@.len() - 1 implies (#[trigger] d.states@[i]).chunk.code@
        == a.states@[i].chunk.code@ && d.states@[i].loop_stack == a.states@[i].loop_stack by {
        assert(d.states@[i] == c.states@[i]);
        assert(c.states@[i].chunk.code@ == b.states@[i].chunk.code@);
        assert(b.states@[i] == a.states@[i]);
    }
}



impl Compiler {
    /// Start compiling a nested function; it inherits the method name that
    /// bare `super` refers to.
    fn push_fn(&mut self, name: &str, arity: usize, line: u32)
        requires
            old(self).inv(),
        ensures
            final(self).inv(),
            final(self).states@.len() == old(self).states@.len() + 1,
            forall|d: int| 0 <= d < old(self).states@.len() ==> (#[trigger] final(self).states@[d]) == old(self).states@[d],
            final(self).top_code().len() == 0,
            final(self).states@.last().loop_stack@.len() == 0,
            final(self).type_aliases == old(self).type_aliases,
            final(self).interfaces == old(self).interfaces,
            final(self).global_mode == old(self).global_mode,
            final(self).has_imports == old(self).has_imports,
            final(self).enclosing_class_stack == old(self).enclosing_class_stack,
    {
        let k = self.states.len() - 1;
        let inherit = match &self.states[k].super_method_name {
            Some(s) => Some(s.clone()),
            None => None,
        };
        let mut fs = FunctionState::new(name, arity, line);
        fs.super_method_name = inherit;
        self.put_top(fs);
    }

    /// Set the method name that bare `super` refers to in the current function.
    fn set_super_name(&mut self, name: String)
        requires
            old(self).inv(),
        ensures
            final(self).states@.last().super_method_name == Some(name),
            Compiler::step(old(self), final(self), true),
            final(self).inv(),
            same_code(old(self).states@, final(self).states@),
            final(self).states@.last().locals == old(self).states@.last().locals,
            forall|d: int| 0 <= d < old(self).states@.len() - 1 ==> (#[trigger] final(self).states@[d]) == old(self).states@[d],
            final(self).type_aliases == old(self).type_aliases,
            final(self).interfaces == old(self).interfaces,
            final(self).global_mode == old(self).global_mode,
            final(self).has_imports == old(self).has_imports,
            final(self).enclosing_class_stack == old(self).enclosing_class_stack,
    {
        let mut fs = self.take_top();
        fs.super_method_name = Some(name);
        self.put_top(fs);
        proof {
            assert forall|d: int| 0 <= d < old(self).states@.len() implies (#[trigger] self.states@[d]).chunk.code@
                == old(self).states@[d].chunk.code@ && self.states@[d].chunk.lines@ == old(self).states@[d].chunk.lines@
                && self.states@[d].loop_stack == old(self).states@[d].loop_stack by {
                if d < old(self).states@.len() - 1 {
                    assert(self.states@[d] == old(self).states@[d]);
                }
            }
        }
    }

    /// Set the run-time checks of the current function's result and parameters.
    fn set_types(&mut self, return_type: Option<RuntimeType>, param_types: Vec<Option<RuntimeType>>)
        requires
            old(self).inv(),
        ensures
            final(self).states@.last().return_type == return_type,
            final(self).states@.last().param_types == param_types,
            Compiler::step(old(self), final(self), true),
            final(self).inv(),
            same_code(old(self).states@, final(self).states@),
            final(self).states@.last().locals == old(self).states@.last().locals,
            forall|d: int| 0 <= d < old(self).states@.len() - 1 ==> (#[trigger] final(self).states@[d]) == old(self).states@[d],
            final(self).type_aliases == old(self).type_aliases,
            final(self).interfaces == old(self).interfaces,
            final(self).global_mode == old(self).global_mode,
            final(self).has_imports == old(self).has_imports,
            final(self).enclosing_class_stack == old(self).enclosing_class_stack,
    {
        let mut fs = self.take_top();
        fs.return_type = return_type;
        fs.param_types = param_types;
        self.put_top(fs);
        proof {
            assert forall|d: int| 0 <= d < old(self).states@.len() implies (#[trigger] self.states@[d]).chunk.code@
                == old(self).states@[d].chunk.code@ && self.states@[d].chunk.lines@ == old(self).states@[d].chunk.lines@
                && self.states@[d].loop_stack == old(self).states@[d].loop_stack by {
                if d < old(self).states@.len() - 1 {
                    assert(self.states@[d] == old(self).states@[d]);
                }
            }
        }
    }

    /// Finish the function being compiled.
    fn pop_fn(&mut self) -> (f: Rc<Function>)
        requires
            old(self).inv(),
        ensures
            final(self).states@ == old(self).states@.drop_last(),
            forall|d: int| 0 <= d < final(self).states@.len() ==> frame_ok(#[trigger] final(self).states@[d]),
            code_ok(f.chunk),
            f.chunk.code@ == old(self).top_code(),
            f.chunk.constants@ == old(self).states@.last().chunk.constants@,
            final(self).type_aliases == old(self).type_aliases,
            final(self).interfaces == old(self).interfaces,
            final(self).global_mode == old(self).global_mode,
            final(self).has_imports == old(self).has_imports,
            final(self).enclosing_class_stack == old(self).enclosing_class_stack,
    {
        let fs = self.take_top();
        let mut upvalue_defs: Vec<UpvalueDef> = Vec::new();
        let mut i: usize = 0;
        while i < fs.upvalue_defs.len()
            invariant
                i <= fs.upvalue_defs@.len(),
            decreases fs.upvalue_defs@.len() - i,
        {
            upvalue_defs.push(UpvalueDef { is_local: fs.upvalue_defs[i].is_local, index: fs.upvalue_defs[i].index });
            i += 1;
        }
        let FunctionState { chunk, name, arity, super_method_name, return_type, param_types, .. } = fs;
        Rc::new(Function { name, arity, super_method_name, chunk, upvalue_defs, return_type, param_types })
    }

    fn push_loop(&mut self, start: usize)
        requires
            old(self).inv(),
            start <= old(self).top_code().len(),
        ensures
            final(self).inv(),
            final(self).states@.len() == old(self).states@.len(),
            final(self).top_code() == old(self).top_code(),
            forall|d: int| 0 <= d < old(self).states@.len() - 1 ==> (#[trigger] final(self).states@[d]) == old(self).states@[d],
            final(self).states@.last().loop_stack@.len() == old(self).states@.last().loop_stack@.len() + 1,
            final(self).states@.last().loop_stack@.last().break_jumps@.len() == 0,
            final(self).states@.last().chunk.constants@ == old(self).states@.last().chunk.constants@,
            final(self).states@.last().locals == old(self).states@.last().locals,
            final(self).type_aliases == old(self).type_aliases,
            final(self).interfaces == old(self).interfaces,
            final(self).global_mode == old(self).global_mode,
            final(self).has_imports == old(self).has_imports,
            final(self).enclosing_class_stack == old(self).enclosing_class_stack,
    {
        let mut fs = self.take_top();
        let ghost ls0 = fs.loop_stack@;
        fs.loop_stack.push(LoopCtx { start, break_jumps: Vec::new() });
        proof {
            assert forall|k: int| 0 <= k < fs.loop_stack@.len() implies {
                &&& (#[trigger] fs.loop_stack@[k]).start <= fs.chunk.code@.len()
                &&& forall|b: int| 0 <= b < fs.loop_stack@[k].break_jumps@.len() ==> {
                    &&& (#[trigger] fs.loop_stack@[k].break_jumps@[b]) < fs.chunk.code@.len()
                    &&& is_forward_jump(fs.chunk.code@[fs.loop_stack@[k].break_jumps@[b] as int])
                }
            } by {
                if k < ls0.len() {
                    assert(fs.loop_stack@[k] == ls0[k]);
                }
            }
        }
        self.put_top(fs);
    }

    /// Stop compiling the innermost loop; its pending breaks.
    fn pop_loop(&mut self) -> (breaks: Vec<usize>)
        requires
            old(self).inv(),
            old(self).states@.last().loop_stack@.len() > 0,
        ensures
            final(self).inv(),
            final(self).states@.len() == old(self).states@.len(),
            final(self).top_code() == old(self).top_code(),
            forall|d: int| 0 <= d < old(self).states@.len() - 1 ==> (#[trigger] final(self).states@[d]) == old(self).states@[d],
            final(self).states@.last().loop_stack@.len() == old(self).states@.last().loop_stack@.len() - 1,
            breaks@ == old(self).states@.last().loop_stack@.last().break_jumps@,
            final(self).states@.last().chunk.constants@ == old(self).states@.last().chunk.constants@,
            final(self).states@.last().locals == old(self).states@.last().locals,
            forall|b: int| 0 <= b < breaks@.len() ==> (#[trigger] breaks@[b]) < final(self).top_code().len()
                && is_forward_jump(final(self).top_code()[breaks@[b] as int]),
            final(self).type_aliases == old(self).type_aliases,
            final(self).interfaces == old(self).interfaces,
            final(self).global_mode == old(self).global_mode,
            final(self).has_imports == old(self).has_imports,
            final(self).enclosing_class_stack == old(self).enclosing_class_stack,
    {
        let mut fs = self.take_top();
        let ghost ls0 = fs.loop_stack@;
        let ctx = fs.loop_stack.pop().unwrap();
        proof {
            assert(ctx == ls0[ls0.len() - 1]);
            assert forall|k: int| 0 <= k < fs.loop_stack@.len() implies {
                &&& (#[trigger] fs.loop_stack@[k]).start <= fs.chunk.code@.len()
                &&& forall|b: int| 0 <= b < fs.loop_stack@[k].break_jumps@.len() ==> {
                    &&& (#[trigger] fs.loop_stack@[k].break_jumps@[b]) < fs.chunk.code@.len()
                    &&& is_forward_jump(fs.chunk.code@[fs.loop_stack@[k].break_jumps@[b] as int])
                }
            } by {
                assert(fs.loop_stack@[k] == ls0[k]);
            }
        }
        self.put_top(fs);
        ctx.break_jumps
    }

    /// The start of the innermost loop, if any.
    fn loop_start(&self) -> (r: Option<usize>)
        requires
            self.inv(),
        ensures
            match r {
                Some(s) => s <= self.top_code().len() && self.states@.last().loop_stack@.len() > 0,
                None => self.states@.last().loop_stack@.len() == 0,
            },
    {
        let k = self.states.len() - 1;
        let n = self.states[k].loop_stack.len();
        if n == 0 {
            None
        } else {
            proof {
                assert(frame_ok(self.states@[k as int]));
            }
            Some(self.states[k].loop_stack[n - 1].start)
        }
    }

    /// Record a pending break of the innermost loop.
    fn add_break(&mut self, jump_idx: usize)
        requires
            old(self).inv(),
            old(self).states@.last().loop_stack@.len() > 0,
            jump_idx < old(self).top_code().len(),
            is_forward_jump(old(self).top_code()[jump_idx as int]),
        ensures
            Compiler::step(old(self), final(self), true),
            final(self).inv(),
            final(self).states@.len() == old(self).states@.len(),
            final(self).top_code() == old(self).top_code(),
            final(self).states@.last().loop_stack@.last().break_jumps@
                == old(self).states@.last().loop_stack@.last().break_jumps@.push(jump_idx),
            final(self).states@.last().loop_stack@.last().start == old(self).states@.last().loop_stack@.last().start,
            forall|k: int| 0 <= k < old(self).states@.last().loop_stack@.len() - 1 ==> #[trigger] final(self).states@.last().loop_stack@[k]
                == old(self).states@.last().loop_stack@[k],
            forall|d: int| 0 <= d < old(self).states@.len() - 1 ==> (#[trigger] final(self).states@[d]) == old(self).states@[d],
            final(self).states@.last().loop_stack@.len() == old(self).states@.last().loop_stack@.len(),
            final(self).states@.last().locals == old(self).states@.last().locals,
            final(self).type_aliases == old(self).type_aliases,
            final(self).interfaces == old(self).interfaces,
            final(self).global_mode == old(self).global_mode,
            final(self).has_imports == old(self).has_imports,
            final(self).enclosing_class_stack == old(self).enclosing_class_stack,
    {
        let mut fs = self.take_top();
        let ghost ls0 = fs.loop_stack@;
        let mut ctx = fs.loop_stack.pop().unwrap();
        ctx.break_jumps.push(jump_idx);
        fs.loop_stack.push(ctx);
        proof {
            assert forall|k: int| 0 <= k < fs.loop_stack@.len() implies {
                &&& (#[trigger] fs.loop_stack@[k]).start <= fs.chunk.code@.len()
                &&& forall|b: int| 0 <= b < fs.loop_stack@[k].break_jumps@.len() ==> {
                    &&& (#[trigger] fs.loop_stack@[k].break_jumps@[b]) < fs.chunk.code@.len()
                    &&& is_forward_jump(fs.chunk.code@[fs.loop_stack@[k].break_jumps@[b] as int])
                }
            } by {
                if k < ls0.len() - 1 {
                    assert(fs.loop_stack@[k] == ls0[k]);
                } else {
                    assert forall|b: int| 0 <= b < fs.loop_stack@[k].break_jumps@.len() implies {
                        &&& (#[trigger] fs.loop_stack@[k].break_jumps@[b]) < fs.chunk.code@.len()
                        &&& is_forward_jump(fs.chunk.code@[fs.loop_stack@[k].break_jumps@[b] as int])
                    } by {
                        if b < ls0[k].break_jumps@.len() {
                            assert(fs.loop_stack@[k].break_jumps@[b] == ls0[k].break_jumps@[b]);
                        }
                    }
                }
            }
        }
        self.put_top(fs);
    }
}


/// Statements that leave no value: `while`, the jumps, `raise`, multiple
/// assignment, `import`, type aliases and interfaces.
pub open spec fn stmt_form(e: Expr) -> bool {
    ||| e is While
    ||| e is Return
    ||| e is Break
    ||| e is Next
    ||| e is Raise
    ||| e is MultiAssign
    ||| e is Import
    ||| e is TypeAlias
    ||| e is Interface
}

fn is_stmt_form(e: &Expr) -> (r: bool)
    ensures
        r == stmt_form(*e),
{
    match e {
        Expr::While { .. } | Expr::Return(_) | Expr::Break(_) | Expr::Next(_) | Expr::Raise(_)
        | Expr::MultiAssign { .. } | Expr::Import { .. } | Expr::TypeAlias { .. }
        | Expr::Interface { .. } => true,
        _ => false,
    }
}

/// The texts of `parts` one after another.
pub open spec fn joined_parts(parts: Seq<&str>) -> Seq<char>
    decreases parts.len(),
{
    if parts.len() == 0 {
        Seq::empty()
    } else {
        joined_parts(parts.drop_last()) + parts.last()@
    }
}

fn msg(parts: &[&str]) -> (r: String)
    ensures
        r@ == joined_parts(parts@),
{
    let mut out = String::new();
    let mut i: usize = 0;
    while i < parts.len()
        invariant
            i <= parts@.len(),
            out@ == joined_parts(parts@.take(i as int)),
        decreases parts@.len() - i,
    {
        proof {
            assert(parts@.take(i + 1).drop_last() =~= parts@.take(i as int));
        }
        out.append(parts[i]);
        i += 1;
    }
    proof {
        assert(parts@.take(parts@.len() as int) =~= parts@);
    }
    out
}

fn usize_text(n: usize) -> (r: String) {
    u64_to_string(n as u64)
}

/// Pending jumps of the code being compiled: each is a forward jump.
spec fn pending_ok(js: Seq<usize>, code: Seq<OpCode>) -> bool {
    forall|b: int| 0 <= b < js.len() ==> (#[trigger] js[b]) < code.len() && is_forward_jump(code[js[b] as int])
}

proof fn lemma_pending_grows(js: Seq<usize>, a: Seq<OpCode>, b: Seq<OpCode>)
    requires
        pending_ok(js, a),
        grows(a, b),
    ensures
        pending_ok(js, b),
{
    assert forall|k: int| 0 <= k < js.len() implies (#[trigger] js[k]) < b.len() && is_forward_jump(b[js[k] as int]) by {
        assert(is_forward_jump(a[js[k] as int]));
    }
}

impl Compiler {
    fn collect_type_aliases(&mut self, exprs: &[Expr])
        ensures
            final(self).states == old(self).states,
            final(self).global_mode == old(self).global_mode,
            forall|x: Seq<char>| #[trigger] opt_ty(lookup(final(self).type_aliases@, x)) == match last_alias(exprs@, x) {
                Some(t) => Some(ty(t)),
                None => opt_ty(lookup(old(self).type_aliases@, x)),
            },
            old(self).interfaces@.len() <= final(self).interfaces@.len(),
            final(self).interfaces@.take(old(self).interfaces@.len() as int) == old(self).interfaces@,
            forall|i: int| 0 <= i < exprs@.len() ==> (#[trigger] exprs@[i] matches Expr::Interface { name, .. } ==> exists|j: int|
                0 <= j < final(self).interfaces@.len() && final(self).interfaces@[j]@ == name@),
    {
        let mut i: usize = 0;
        while i < exprs.len()
            invariant
                i <= exprs@.len(),
                self.states == old(self).states,
                self.global_mode == old(self).global_mode,
                forall|x: Seq<char>| #[trigger] opt_ty(lookup(self.type_aliases@, x)) == match last_alias(exprs@.take(i as int), x) {
                    Some(t) => Some(ty(t)),
                    None => opt_ty(lookup(old(self).type_aliases@, x)),
                },
                old(self).interfaces@.len() <= self.interfaces@.len(),
                self.interfaces@.take(old(self).interfaces@.len() as int) == old(self).interfaces@,
                forall|k: int| 0 <= k < i ==> (#[trigger] exprs@[k] matches Expr::Interface { name, .. } ==> exists|j: int|
                    0 <= j < self.interfaces@.len() && self.interfaces@[j]@ == name@),
            decreases exprs@.len() - i,
        {
            let ghost ta0 = self.type_aliases@;
            let ghost if0 = self.interfaces@;
            proof {
                assert(exprs@.take(i + 1).drop_last() =~= exprs@.take(i as int));
                assert(exprs@.take(i + 1).last() == exprs@[i as int]);
            }
            match &exprs[i] {
                Expr::TypeAlias { name, type_expr } => {
                    crate::typechecker::assoc_insert(&mut self.type_aliases, name.clone(), copy_type(type_expr));
                    proof {
                        assert forall|x: Seq<char>| #[trigger] opt_ty(lookup(self.type_aliases@, x)) == match last_alias(
                            exprs@.take(i + 1),
                            x,
                        ) {
                            Some(t) => Some(ty(t)),
                            None => opt_ty(lookup(old(self).type_aliases@, x)),
                        } by {
                            if x != name@ {
                                assert(lookup(self.type_aliases@, x) == lookup(ta0, x));
                            }
                        }
                    }
                },
                Expr::Interface { name, .. } => {
                    if !has_name(&self.interfaces, name.as_str()) {
                        self.interfaces.push(name.clone());
                        proof {
                            assert(self.interfaces@[if0.len() as int]@ == name@);
                            assert(self.interfaces@.take(old(self).interfaces@.len() as int) =~= if0.take(old(self).interfaces@.len() as int));
                            assert forall|k: int| 0 <= k < i implies (#[trigger] exprs@[k] matches Expr::Interface { name, .. } ==> exists|j: int|
                                0 <= j < self.interfaces@.len() && self.interfaces@[j]@ == name@) by {
                                if let Expr::Interface { name: nk, .. } = exprs@[k] {
                                    let j = choose|j: int| 0 <= j < if0.len() && if0[j]@ == nk@;
                                    assert(self.interfaces@[j] == if0[j]);
                                }
                            }
                        }
                    }
                },
                _ => {},
            }
            proof {
                assert forall|k: int| 0 <= k < i + 1 implies (#[trigger] exprs@[k] matches Expr::Interface { name, .. } ==> exists|j: int|
                    0 <= j < self.interfaces@.len() && self.interfaces@[j]@ == name@) by {
                    if let Expr::Interface { name: nk, .. } = exprs@[k] {
                        if k < i {
                            let j = choose|j: int| 0 <= j < if0.len() && if0[j]@ == nk@;
                            assert(self.interfaces@.take(if0.len() as int) == if0) by {
                                assert(self.interfaces@.take(old(self).interfaces@.len() as int) == old(self).interfaces@);
                            }
                            assert(self.interfaces@.take(if0.len() as int)[j] == self.interfaces@[j]);
                        }
                    }
                }
            }
            i += 1;
        }
        proof {
            assert(exprs@.take(exprs@.len() as int) =~= exprs@);
        }
    }

    fn resolve_fuel(&self, te: &TypeExpr, fuel: usize) -> (r: TypeExpr)
        ensures
            ty(r) == resolved_ty(self.type_aliases@, *te, fuel as nat),
        decreases fuel, *te, 1nat,
    {
        match te {
            TypeExpr::Named(n) => match find_key(&self.type_aliases, n.as_str()) {
                Some(i) => {
                    proof {
                        crate::typechecker::lemma_key_index_bounds(self.type_aliases@, n@);
                    }
                    if fuel > 0 {
                        self.resolve_fuel(&self.type_aliases[i].1, fuel - 1)
                    } else {
                        copy_type(te)
                    }
                },
                None => copy_type(te),
            },
            TypeExpr::Apply(name, args) => {
                proof {
                    crate::typechecker::lemma_elems_decrease(*te, *args);
                }
                TypeExpr::Apply(name.clone(), self.resolve_all(args, fuel, Ghost(*te)))
            },
            TypeExpr::Union(arms) => {
                proof {
                    crate::typechecker::lemma_elems_decrease(*te, *arms);
                }
                let mut resolved = self.resolve_all(arms, fuel, Ghost(*te));
                let ghost r0 = resolved@;
                let ghost n = r0.len();
                let mut rev: Vec<TypeExpr> = Vec::new();
                while resolved.len() > 0
                    invariant
                        resolved@ == r0.take(resolved@.len() as int),
                        rev@.len() + resolved@.len() == n,
                        n == r0.len(),
                        forall|k: int| 0 <= k < rev@.len() ==> #[trigger] rev@[k] == r0[n - 1 - k],
                    decreases resolved@.len(),
                {
                    let x = resolved.pop().unwrap();
                    proof {
                        assert(resolved@ =~= r0.take(resolved@.len() as int));
                    }
                    rev.push(x);
                }
                proof {
                    assert(tys(r0).take(0) =~= Seq::<TyView>::empty());
                }
                let mut flat: Vec<TypeExpr> = Vec::new();
                while rev.len() > 0
                    invariant
                        rev@.len() <= n,
                        n == r0.len(),
                        forall|k: int| 0 <= k < rev@.len() ==> #[trigger] rev@[k] == r0[n - 1 - k],
                        tys(flat@) == flatten_arms(tys(r0).take(n - rev@.len())),
                    decreases rev@.len(),
                {
                    let ghost m = n - rev@.len();
                    let ghost f0 = flat@;
                    let arm = rev.pop().unwrap();
                    let ghost a0 = arm;
                    match arm {
                        TypeExpr::Union(inner) => {
                            let mut inner = inner;
                            flat.append(&mut inner);
                            proof {
                                lemma_flatten_step(r0, m, f0, a0, flat@);
                            }
                        },
                        other => {
                            flat.push(other);
                            proof {
                                lemma_flatten_step(r0, m, f0, a0, flat@);
                            }
                        },
                    }
                }
                proof {
                    lemma_tys(r0);
                    assert(tys(r0).take(n as int) =~= tys(r0));
                    lemma_tys(flat@);
                }
                if flat.len() == 1 {
                    let x = flat.pop().unwrap();
                    x
                } else {
                    TypeExpr::Union(flat)
                }
            },
            TypeExpr::Literal(v) => TypeExpr::Literal(v.copy()),
            TypeExpr::Any => TypeExpr::Any,
        }
    }

    fn resolve_all(&self, v: &Vec<TypeExpr>, fuel: usize, Ghost(parent): Ghost<TypeExpr>) -> (r: Vec<TypeExpr>)
        requires
            forall|i: int| 0 <= i < v@.len() ==> decreases_to!(parent => #[trigger] v@[i]),
        ensures
            tys(r@) == resolved_tys(self.type_aliases@, v@, fuel as nat),
        decreases fuel, parent, 0nat,
    {
        let mut r: Vec<TypeExpr> = Vec::new();
        let mut i: usize = 0;
        while i < v.len()
            invariant
                i <= v@.len(),
                forall|k: int| 0 <= k < v@.len() ==> decreases_to!(parent => #[trigger] v@[k]),
                r@.len() == i,
                forall|k: int| 0 <= k < i ==> ty(#[trigger] r@[k]) == resolved_ty(self.type_aliases@, v@[k], fuel as nat),
            decreases v@.len() - i,
        {
            assert(decreases_to!(parent => v@[i as int]));
            r.push(self.resolve_fuel(&v[i], fuel));
            i += 1;
        }
        proof {
            lemma_resolved_tys(self.type_aliases@, v@, fuel as nat, r@);
        }
        r
    }

    /// The run-time check of an annotation, aliases expanded and type
    /// variables in scope erased.
    fn runtime_check(&self, te: &Option<TypeExpr>, tvars: &Vec<String>) -> (r: Option<RuntimeType>)
        ensures
            opt_rt(r) == annotation_check(self.type_aliases@, *te, tvars@, self.interfaces@),
    {
        match te {
            Some(t) => {
                let resolved = self.resolve_fuel(t, self.type_aliases.len());
                let erased = erase_type_vars(&resolved, tvars);
                type_expr_runtime(&erased, &self.interfaces)
            },
            None => None,
        }
    }

    fn param_checks(&self, params: &Vec<crate::ast::ParamDef>, tvars: &Vec<String>) -> (r: Vec<Option<RuntimeType>>)
        ensures
            r@.len() == params@.len(),
            forall|i: int| 0 <= i < params@.len() ==> opt_rt(#[trigger] r@[i]) == annotation_check(
                self.type_aliases@,
                params@[i].type_ann,
                tvars@,
                self.interfaces@,
            ),
    {
        let mut out: Vec<Option<RuntimeType>> = Vec::new();
        let mut i: usize = 0;
        while i < params.len()
            invariant
                i <= params@.len(),
                out@.len() == i,
                forall|k: int| 0 <= k < i ==> opt_rt(#[trigger] out@[k]) == annotation_check(
                    self.type_aliases@,
                    params@[k].type_ann,
                    tvars@,
                    self.interfaces@,
                ),
            decreases params@.len() - i,
        {
            out.push(self.runtime_check(&params[i].type_ann, tvars));
            i += 1;
        }
        out
    }

    fn depth(&self) -> (d: usize)
        requires
            self.inv(),
        ensures
            d == self.states@.len() - 1,
    {
        self.states.len() - 1
    }

    /// Whether `e` assigns a name that is neither a local nor captured, and
    /// so creates a new local slot.
    fn is_new_local_assign(&self, e: &Expr) -> (r: bool)
        requires
            self.inv(),
        ensures
            r == (!(self.global_mode && self.states@.len() == 1) && match *e {
                Expr::Assign { name, .. } => {
                    &&& !has_local(self.states@.last(), name@)
                    &&& !upvalue_reachable(self.states@, self.states@.len() - 1, name@)
                },
                _ => false,
            }),
    {
        let depth = self.depth();
        if self.global_mode && depth == 0 {
            return false;
        }
        match e {
            Expr::Assign { name, .. } => self.resolve_local(depth, name.as_str()).is_none()
                && !self.would_be_upvalue(depth, name.as_str()),
            _ => false,
        }
    }

    fn maybe_declare(&mut self, name: &str)
        requires
            old(self).inv(),
        ensures
            Compiler::step(old(self), final(self), true),
            if !has_local(old(self).states@.last(), name@) && !upvalue_reachable(
                old(self).states@,
                old(self).states@.len() - 1,
                name@,
            ) {
                &&& final(self).top_code() == old(self).top_code().push(OpCode::Nil)
                &&& final(self).states@.last().locals@ == old(self).states@.last().locals@.push(
                    LocalInfo { name: final(self).states@.last().locals@.last().name, captured: false },
                )
                &&& final(self).states@.last().locals@.last().name@ == name@
            } else {
                *final(self) == *old(self)
            },
    {
        let depth = self.depth();
        if self.resolve_local(depth, name).is_none() && !self.would_be_upvalue(depth, name) {
            self.emit(OpCode::Nil);
            let _ = self.push_local(String::from_str(name));
        }
    }

    /// Give the variables first assigned inside a loop body their slots
    /// before the loop starts.
    fn hoist_in_stmt(&mut self, stmt: &Expr)
        requires
            old(self).inv(),
        ensures
            Compiler::step(old(self), final(self), true),
            match *stmt {
                Expr::Assign { name, .. } => if !has_local(old(self).states@.last(), name@) && !upvalue_reachable(
                    old(self).states@,
                    old(self).states@.len() - 1,
                    name@,
                ) {
                    &&& final(self).top_code() == old(self).top_code().push(OpCode::Nil)
                    &&& final(self).states@.last().locals@.len() == old(self).states@.last().locals@.len() + 1
                    &&& final(self).states@.last().locals@.last().name@ == name@
                } else {
                    *final(self) == *old(self)
                },
                Expr::MultiAssign { .. } | Expr::If { .. } | Expr::While { .. } | Expr::Begin { .. } => true,
                _ => *final(self) == *old(self),
            },
        decreases *stmt, 1nat,
    {
        match stmt {
            Expr::Assign { name, .. } => self.maybe_declare(name.as_str()),
            Expr::MultiAssign { names, .. } => {
                let mut i: usize = 0;
                while i < names.len()
                    invariant
                        i <= names@.len(),
                        Compiler::step(old(self), self, true),
                    decreases names@.len() - i,
                {
                    self.maybe_declare(names[i].as_str());
                    i += 1;
                }
            },
            Expr::If { then_branch, else_branch, .. } => {
                proof {
                    crate::typechecker::lemma_exprs_below(*stmt, *then_branch);
                }
                self.hoist_all(then_branch, Ghost(*stmt));
                if let Some(es) = else_branch {
                    proof {
                        assert(decreases_to!(*stmt => *else_branch));
                        assert(decreases_to!(*else_branch => *es));
                        crate::typechecker::lemma_exprs_below(*stmt, *es);
                    }
                    self.hoist_all(es, Ghost(*stmt));
                }
            },
            Expr::While { body, .. } => {
                proof {
                    crate::typechecker::lemma_exprs_below(*stmt, *body);
                }
                self.hoist_all(body, Ghost(*stmt));
            },
            Expr::Begin { body, rescue_clauses, else_body, ensure_body } => {
                proof {
                    crate::typechecker::lemma_exprs_below(*stmt, *body);
                    crate::typechecker::lemma_exprs_below(*stmt, *else_body);
                    crate::typechecker::lemma_exprs_below(*stmt, *ensure_body);
                }
                self.hoist_all(body, Ghost(*stmt));
                let mut i: usize = 0;
                while i < rescue_clauses.len()
                    invariant
                        i <= rescue_clauses@.len(),
                        Compiler::step(old(self), self, true),
                        *stmt matches Expr::Begin { rescue_clauses: rc, .. } && rc == *rescue_clauses,
                    decreases rescue_clauses@.len() - i,
                {
                    proof {
                        assert(decreases_to!(*stmt => *rescue_clauses));
                        assert(decreases_to!(*rescue_clauses => rescue_clauses@));
                        assert(decreases_to!(rescue_clauses@ => rescue_clauses@[i as int]));
                        assert(decreases_to!(rescue_clauses@[i as int] => rescue_clauses@[i as int].body));
                        crate::typechecker::lemma_exprs_below(*stmt, rescue_clauses@[i as int].body);
                    }
                    self.hoist_all(&rescue_clauses[i].body, Ghost(*stmt));
                    i += 1;
                }
                self.hoist_all(else_body, Ghost(*stmt));
                self.hoist_all(ensure_body, Ghost(*stmt));
            },
            _ => {},
        }
    }

    fn hoist_all(&mut self, v: &Vec<Expr>, Ghost(parent): Ghost<Expr>)
        requires
            old(self).inv(),
            forall|i: int| 0 <= i < v@.len() ==> decreases_to!(parent => #[trigger] v@[i]),
        ensures
            Compiler::step(old(self), final(self), true),
            (forall|i: int| 0 <= i < v@.len() ==> pure_expr(#[trigger] v@[i])) ==> *final(self) == *old(self),
        decreases parent, 0nat,
    {
        let mut i: usize = 0;
        while i < v.len()
            invariant
                i <= v@.len(),
                Compiler::step(old(self), self, true),
                (forall|j: int| 0 <= j < v@.len() ==> pure_expr(#[trigger] v@[j])) ==> *self == *old(self),
                forall|k: int| 0 <= k < v@.len() ==> decreases_to!(parent => #[trigger] v@[k]),
            decreases v@.len() - i,
        {
            assert(decreases_to!(parent => v@[i as int]));
            self.hoist_in_stmt(&v[i]);
            i += 1;
        }
    }

    /// Read `name` as a class constant of the enclosing classes when it is
    /// capitalised inside a class body, else as a global.
    fn emit_maybe_lexical_or_global(&mut self, name: &str)
        requires
            old(self).inv(),
        ensures
            Compiler::step(old(self), final(self), true),
            final(self).top_code() == old(self).top_code().push(
                if name@.len() > 0 && is_uppercase_char(name@[0]) && old(self).enclosing_class_stack@.len() > 0 {
                    OpCode::GetLexicalConstant((old(self).states@.last().chunk.constants@.len() + 1) as usize)
                } else {
                    OpCode::GetGlobal(old(self).states@.last().chunk.constants@.len() as usize)
                },
            ),
    {
        if first_is_uppercase(name) && self.enclosing_class_stack.len() > 0 {
            let enclosing = crate::typechecker::copy_strings_pub(&self.enclosing_class_stack);
            let name_idx = self.add_str(String::from_str(name));
            let scope_idx = self.add_const(Constant::LexicalClassScope { enclosing_classes: enclosing, name_idx });
            self.emit(OpCode::GetLexicalConstant(scope_idx));
        } else {
            let idx = self.add_str(String::from_str(name));
            self.emit(OpCode::GetGlobal(idx));
        }
    }

    fn literal(&mut self, val: &Value)
        requires
            old(self).inv(),
        ensures
            Compiler::step(old(self), final(self), true),
            final(self).top_code() == old(self).top_code().push(
                literal_op(*val, old(self).states@.last().chunk.constants@.len()),
            ),
            final(self).states@.last().chunk.constants@ == match *val {
                Value::Int(n) => old(self).states@.last().chunk.constants@.push(Constant::Int(n)),
                Value::Float(t) => old(self).states@.last().chunk.constants@.push(Constant::Float(t)),
                Value::Str(t) => old(self).states@.last().chunk.constants@.push(Constant::Str(t)),
                _ => old(self).states@.last().chunk.constants@,
            },
            final(self).states@.last().loop_stack == old(self).states@.last().loop_stack,
            final(self).states@.last().locals == old(self).states@.last().locals,
            forall|d: int| 0 <= d < old(self).states@.len() - 1 ==> (#[trigger] final(self).states@[d]) == old(self).states@[d],
    {
        match val {
            Value::Bool(b) => if *b {
                self.emit(OpCode::True)
            } else {
                self.emit(OpCode::False)
            },
            Value::Nil => self.emit(OpCode::Nil),
            Value::Int(n) => {
                let idx = self.add_const(Constant::Int(*n));
                self.emit(OpCode::Constant(idx));
            },
            Value::Float(text) => {
                let idx = self.add_const(Constant::Float(text.clone()));
                self.emit(OpCode::Constant(idx));
            },
            Value::Str(st) => {
                let idx = self.add_str(st.clone());
                self.emit(OpCode::Constant(idx));
            },
        }
    }

    fn reserve_local(&mut self, name: String) -> (slot: usize)
        requires
            old(self).inv(),
        ensures
            Compiler::step(old(self), final(self), true),
    {
        let slot = self.push_local(name);
        self.emit(OpCode::Nil);
        slot
    }
}


impl Compiler {
    /// Compile a function body; the value of its last expression is returned
    /// (a definition returns its name), an empty body returns nil.
    fn compile_body(&mut self, exprs: &Vec<Expr>, Ghost(parent): Ghost<Expr>) -> (res: Result<(), CompileError>)
        requires
            old(self).inv(),
            forall|i: int| 0 <= i < exprs@.len() ==> decreases_to!(parent => #[trigger] exprs@[i]),
        ensures
            Compiler::step(old(self), final(self), res is Ok),
            res is Ok ==> final(self).top_code().len() > 0 && final(self).top_code().last() == OpCode::Return,
            exprs@.len() == 0 ==> res is Ok && final(self).top_code() == old(self).top_code().push(OpCode::Nil).push(
                OpCode::Return,
            ),
        decreases parent, 0nat,
    {
        let n = exprs.len();
        if n == 0 {
            self.emit(OpCode::Nil);
            self.emit(OpCode::Return);
            return Ok(());
        }
        let mut i: usize = 0;
        while i < n - 1
            invariant
                i <= n - 1,
                n == exprs@.len(),
                self.inv(),
                Compiler::step(old(self), self, true),
                forall|k: int| 0 <= k < exprs@.len() ==> decreases_to!(parent => #[trigger] exprs@[k]),
            decreases n - 1 - i,
        {
            assert(decreases_to!(parent => exprs@[i as int]));
            self.stmt(&exprs[i])?;
            i += 1;
        }
        let last = &exprs[n - 1];
        assert(decreases_to!(parent => exprs@[n - 1]));
        match last {
            Expr::Function { name, .. } => {
                self.expr(last)?;
                let idx = self.add_str(name.clone());
                self.emit(OpCode::Constant(idx));
                self.emit(OpCode::Return);
            },
            _ => {
                if !is_stmt_form(last) {
                    self.expr(last)?;
                    self.emit(OpCode::Return);
                } else {
                    self.stmt(last)?;
                    self.emit(OpCode::Nil);
                    self.emit(OpCode::Return);
                }
            },
        }
        Ok(())
    }

    /// Compile a branch of `if` or `begin`: its value stays on the stack.
    fn compile_branch(&mut self, exprs: &Vec<Expr>, Ghost(parent): Ghost<Expr>) -> (res: Result<(), CompileError>)
        requires
            old(self).inv(),
            forall|i: int| 0 <= i < exprs@.len() ==> decreases_to!(parent => #[trigger] exprs@[i]),
        ensures
            Compiler::step(old(self), final(self), res is Ok),
            exprs@.len() == 0 ==> res is Ok && final(self).top_code() == old(self).top_code().push(OpCode::Nil),
            exprs@.len() == 1 && pure_expr(exprs@[0]) ==> res is Ok && final(self).top_code() == old(self).top_code() + pure_code(
                exprs@[0],
                old(self).states@.last().chunk.constants@.len(),
            ) && final(self).states@.last().chunk.constants@ == old(self).states@.last().chunk.constants@ + pure_constants(
                exprs@[0],
            ),
        decreases parent, 0nat,
    {
        let n = exprs.len();
        if n == 0 {
            self.emit(OpCode::Nil);
            return Ok(());
        }
        let mut i: usize = 0;
        while i < n - 1
            invariant
                i <= n - 1,
                n == exprs@.len(),
                self.inv(),
                Compiler::step(old(self), self, true),
                forall|k: int| 0 <= k < exprs@.len() ==> decreases_to!(parent => #[trigger] exprs@[k]),
                n == 1 ==> *self == *old(self),
            decreases n - 1 - i,
        {
            assert(decreases_to!(parent => exprs@[i as int]));
            self.stmt(&exprs[i])?;
            i += 1;
        }
        let last = &exprs[n - 1];
        assert(decreases_to!(parent => exprs@[n - 1]));
        if !is_stmt_form(last) {
            self.expr(last)?;
        } else {
            self.stmt(last)?;
            self.emit(OpCode::Nil);
        }
        Ok(())
    }

    fn stmts(&mut self, exprs: &Vec<Expr>, Ghost(parent): Ghost<Expr>) -> (res: Result<(), CompileError>)
        requires
            old(self).inv(),
            forall|i: int| 0 <= i < exprs@.len() ==> decreases_to!(parent => #[trigger] exprs@[i]),
        ensures
            Compiler::step(old(self), final(self), res is Ok),
            exprs@.len() == 0 ==> res is Ok && *final(self) == *old(self),
            (forall|i: int| 0 <= i < exprs@.len() ==> pure_expr(#[trigger] exprs@[i])) ==> res is Ok && final(self).top_code()
                == old(self).top_code() + pure_stmts_code(exprs@, old(self).states@.last().chunk.constants@.len()) && final(self).states@.last().chunk.constants@
                == old(self).states@.last().chunk.constants@ + program_constants(exprs@) && final(self).states@.last().loop_stack == old(self).states@.last().loop_stack,
        decreases parent, 0nat,
    {
        let mut i: usize = 0;
        proof {
            assert(exprs@.take(0) =~= Seq::<Expr>::empty());
        }
        while i < exprs.len()
            invariant
                i <= exprs@.len(),
                self.inv(),
                Compiler::step(old(self), self, true),
                (forall|j: int| 0 <= j < exprs@.len() ==> pure_expr(#[trigger] exprs@[j])) ==> self.top_code() == old(self).top_code()
                    + pure_stmts_code(exprs@.take(i as int), old(self).states@.last().chunk.constants@.len()) && self.states@.last().chunk.constants@ == old(self).states@.last().chunk.constants@
                    + program_constants(exprs@.take(i as int)) && self.states@.last().loop_stack == old(self).states@.last().loop_stack,
                i == 0 ==> *self == *old(self),
                forall|k: int| 0 <= k < exprs@.len() ==> decreases_to!(parent => #[trigger] exprs@[k]),
            decreases exprs@.len() - i,
        {
            proof {
                assert(exprs@.take(i + 1).drop_last() =~= exprs@.take(i as int));
                assert(exprs@.take(i + 1).last() == exprs@[i as int]);
            }
            assert(decreases_to!(parent => exprs@[i as int]));
            let ghost t0 = self.top_code();
            let ghost kk = self.states@.last().chunk.constants@.len();
            self.stmt(&exprs[i])?;
            proof {
                if exprs@[i as int] is Literal {
                    assert(self.top_code() =~= t0 + pure_code(exprs@[i as int], kk) + seq![OpCode::Pop]);
                }
            }
            i += 1;
        }
        proof {
            assert(exprs@.take(exprs@.len() as int) =~= exprs@);
        }
        Ok(())
    }

    /// Compile `while`: the condition, a jump out when it is false, the body,
    /// and a jump back to the condition; `break` jumps land after the loop.
    fn compile_while(&mut self, stmt: &Expr) -> (res: Result<(), CompileError>)
        requires
            old(self).inv(),
            stmt is While,
        ensures
            Compiler::step(old(self), final(self), res is Ok),
            res is Ok ==> final(self).top_code().len() > old(self).top_code().len(),
            match *stmt {
                Expr::While { condition, body } => pure_expr(*condition) && (forall|i: int|
                    0 <= i < body@.len() ==> pure_expr(#[trigger] body@[i])) ==> {
                    let c = pure_code(*condition, old(self).states@.last().chunk.constants@.len());
                    let b = pure_stmts_code(body@, old(self).states@.last().chunk.constants@.len() + pure_constants(*condition).len());
                    &&& res is Err ==> c.len() + 1 + b.len() == usize::MAX
                    &&& res is Ok ==> final(self).top_code() == old(self).top_code() + c + seq![
                        OpCode::JumpIfFalse((b.len() + 1) as usize),
                    ] + b + seq![OpCode::Loop((c.len() + b.len() + 2) as usize)]
                },
                _ => true,
            },
        decreases *stmt, 3nat,
    {
        if let Expr::While { condition, body } = stmt {
            proof {
                crate::typechecker::lemma_exprs_below(*stmt, *body);
            }
            if !self.global_mode {
                self.hoist_all(body, Ghost(*stmt));
            }
            let loop_start = self.code_len();
            let ghost s1 = *self;
            self.expr(condition)?;
            let ghost t1 = self.top_code();
            let exit_jump = self.emit_jump(OpCode::JumpIfFalse(0));
            let ghost sj = *self;
            self.push_loop(loop_start);
            let ghost s2 = *self;
            self.stmts(body, Ghost(*stmt))?;
            let ghost t2 = self.top_code();
            let breaks = self.pop_loop();
            self.emit_loop(loop_start)?;
            let ghost t3 = self.top_code();
            proof {
                lemma_jump_kept(sj, *self, exit_jump);
            }
            self.patch_jump(exit_jump);
            proof {
                if pure_expr(**condition) && (forall|i: int| 0 <= i < body@.len() ==> pure_expr(#[trigger] body@[i])) {
                    let c = pure_code(**condition, s1.states@.last().chunk.constants@.len());
                    let b = pure_stmts_code(body@, s1.states@.last().chunk.constants@.len() + pure_constants(**condition).len());
                    assert(s1.top_code() == old(self).top_code());
                    assert(t1 == s1.top_code() + c);
                    assert(t2 == t1.push(OpCode::JumpIfFalse(0)) + b);
                    assert(breaks@.len() == 0);
                    assert(t3 == t2.push(OpCode::Loop((c.len() + b.len() + 2) as usize)));
                    assert(self.top_code() =~= old(self).top_code() + c + seq![OpCode::JumpIfFalse((b.len() + 1) as usize)] + b
                        + seq![OpCode::Loop((c.len() + b.len() + 2) as usize)]);
                }
            }
            let ghost s_after = *self;
            let mut k: usize = 0;
            while k < breaks.len()
                invariant
                    k == 0 ==> *self == s_after,
                    k <= breaks@.len(),
                    self.inv(),
                    self.states@.len() == old(self).states@.len(),
                    pending_ok(breaks@, self.top_code()),
                    Compiler::step(old(self), self, true),
                    self.top_code().len() > old(self).top_code().len(),
                decreases breaks@.len() - k,
            {
                self.patch_jump(breaks[k]);
                k += 1;
            }
        }
        Ok(())
    }

    /// Compile a statement: no value is left on the stack.
    fn stmt(&mut self, stmt: &Expr) -> (res: Result<(), CompileError>)
        requires
            old(self).inv(),
        ensures
            Compiler::step(old(self), final(self), res is Ok),
            match *stmt {
                Expr::Return(e) => (res is Ok ==> final(self).top_code().last() == OpCode::NonLocalReturn) && (pure_expr(*e) ==> res is Ok
                    && final(self).top_code() == old(self).top_code() + pure_code(*e, old(self).states@.last().chunk.constants@.len()) + seq![OpCode::NonLocalReturn]),
                Expr::Raise(e) => (res is Ok ==> final(self).top_code().last() == OpCode::Raise) && (pure_expr(*e) ==> res is Ok
                    && final(self).top_code() == old(self).top_code() + pure_code(*e, old(self).states@.last().chunk.constants@.len()) + seq![OpCode::Raise]),
                Expr::While { condition, body } => (res is Ok ==> final(self).top_code().len() > old(self).top_code().len()) && (
                pure_expr(*condition) && (forall|i: int| 0 <= i < body@.len() ==> pure_expr(#[trigger] body@[i])) ==> {
                    let c = pure_code(*condition, old(self).states@.last().chunk.constants@.len());
                    let b = pure_stmts_code(body@, old(self).states@.last().chunk.constants@.len() + pure_constants(*condition).len());
                    &&& res is Err ==> c.len() + 1 + b.len() == usize::MAX
                    &&& res is Ok ==> final(self).top_code() == old(self).top_code() + c + seq![
                        OpCode::JumpIfFalse((b.len() + 1) as usize),
                    ] + b + seq![OpCode::Loop((c.len() + b.len() + 2) as usize)]
                }),
                Expr::MultiAssign { names, values } => names@.len() != values@.len() ==> res is Err,
                Expr::Literal(v) => res is Ok && final(self).top_code() == old(self).top_code().push(
                    literal_op(v, old(self).states@.last().chunk.constants@.len()),
                ).push(OpCode::Pop) && final(self).states@.last().chunk.constants@ == old(self).states@.last().chunk.constants@
                    + literal_constants(v) && final(self).states@.last().loop_stack == old(self).states@.last().loop_stack,
                Expr::TypeAlias { .. } | Expr::Interface { .. } => res is Ok && *final(self) == *old(self),
                Expr::Assign { name, value } => {
                    let names = local_names(old(self).states@.last());
                    let code = scoped_code(*value, names, old(self).states@.last().chunk.constants@.len());
                    &&& scoped_expr(*value, names) && names.contains(name@) ==> res is Ok && final(self).top_code()
                        == old(self).top_code() + code + seq![
                        OpCode::SetLocal(latest_slot(names, name@) as usize),
                        OpCode::Pop,
                    ]
                    &&& (scoped_expr(*value, names) && !names.contains(name@) && !upvalue_reachable(
                        old(self).states@,
                        old(self).states@.len() - 1,
                        name@,
                    ) && !(old(self).global_mode && old(self).states@.len() == 1)) ==> res is Ok && final(self).top_code()
                        == old(self).top_code() + code && local_names(final(self).states@.last()) == names.push(name@)
                },
                _ => (pure_expr(*stmt) ==> res is Ok && final(self).top_code() == old(self).top_code() + pure_code(
                    *stmt,
                    old(self).states@.last().chunk.constants@.len(),
                ) + seq![OpCode::Pop] && final(self).states@.last().chunk.constants@ == old(self).states@.last().chunk.constants@
                    + pure_constants(*stmt) && final(self).states@.last().loop_stack == old(self).states@.last().loop_stack) && (pure_if(*stmt) ==> res is Ok && final(self).top_code() == old(self).top_code()
                    + pure_if_code(*stmt, old(self).states@.last().chunk.constants@.len()) + seq![OpCode::Pop]),
            },
        decreases *stmt, if stmt_form(*stmt) { 4nat } else { 6nat },
    {
        match stmt {
            Expr::Return(e) => {
                self.expr(e)?;
                self.emit(OpCode::NonLocalReturn);
            },
            Expr::While { .. } => {
                self.compile_while(stmt)?;
            },
            Expr::Raise(e) => {
                self.expr(e)?;
                self.emit(OpCode::Raise);
            },
            Expr::Break(e) => {
                self.expr(e)?;
                match self.loop_start() {
                    None => self.emit(OpCode::Break),
                    Some(_) => {
                        self.emit(OpCode::Pop);
                        let j = self.emit_jump(OpCode::Jump(0));
                        self.add_break(j);
                    },
                }
            },
            Expr::Next(e) => {
                self.expr(e)?;
                match self.loop_start() {
                    None => self.emit(OpCode::Next),
                    Some(_) => {
                        self.emit(OpCode::Pop);
                        match self.loop_start() {
                            Some(start) => self.emit_loop(start)?,
                            None => {},
                        }
                    },
                }
            },
            Expr::MultiAssign { names, values } => {
                if names.len() != values.len() {
                    let m = msg(&["expected ", usize_text(names.len()).as_str(), " value(s), got ", usize_text(values.len()).as_str()]);
                    return Err(self.error(m));
                }
                let mut targets: Vec<(bool, usize)> = Vec::new();
                let mut i: usize = 0;
                while i < names.len()
                    invariant
                        *stmt is MultiAssign,
                        i <= names@.len(),
                        self.inv(),
                        Compiler::step(old(self), self, true),
                    decreases names@.len() - i,
                {
                    let depth = self.depth();
                    if let Some(slot) = self.resolve_local(depth, names[i].as_str()) {
                        targets.push((true, slot));
                    } else if let Some(idx) = self.resolve_upvalue(depth, names[i].as_str()) {
                        targets.push((false, idx));
                    } else {
                        let slot = self.locals_len();
                        self.emit(OpCode::Nil);
                        let _ = self.push_local(names[i].clone());
                        targets.push((true, slot));
                    }
                    i += 1;
                }
                proof {
                    crate::typechecker::lemma_exprs_below(*stmt, *values);
                }
                let mut i: usize = 0;
                while i < values.len()
                    invariant
                        *stmt is MultiAssign,
                        i <= values@.len(),
                        self.inv(),
                        Compiler::step(old(self), self, true),
                        forall|k: int| 0 <= k < values@.len() ==> decreases_to!(*stmt => #[trigger] values@[k]),
                    decreases values@.len() - i,
                {
                    assert(decreases_to!(*stmt => values@[i as int]));
                    self.expr(&values[i])?;
                    i += 1;
                }
                let mut k = targets.len();
                while k > 0
                    invariant
                        *stmt is MultiAssign,
                        k <= targets@.len(),
                        self.inv(),
                        Compiler::step(old(self), self, true),
                    decreases k,
                {
                    k -= 1;
                    let (is_slot, n) = targets[k];
                    if is_slot {
                        self.emit(OpCode::SetLocal(n));
                    } else {
                        self.emit(OpCode::SetUpvalue(n));
                    }
                    self.emit(OpCode::Pop);
                }
            },
            Expr::Import { path } => {
                let idx = self.add_str(path.clone());
                self.emit(OpCode::Import(idx));
            },
            Expr::TypeAlias { .. } => {},
            Expr::Interface { .. } => {},
            e => {
                proof {
                    if e is Assign {
                        let name = e->Assign_name;
                        let names = local_names(self.states@.last());
                        if names.contains(name@) {
                            let j = choose|j: int| 0 <= j < names.len() && names[j] == name@;
                            assert(self.states@.last().locals@[j].name@ == name@);
                        } else {
                            assert forall|j: int| 0 <= j < self.states@.last().locals@.len() implies (
                            #[trigger] self.states@.last().locals@[j]).name@ != name@ by {
                                assert(names[j] == self.states@.last().locals@[j].name@);
                            }
                        }
                    }
                }
                let is_new_local = self.is_new_local_assign(e);
                let defines_binding = !self.global_mode && match e {
                    Expr::Function { .. } | Expr::Class { .. } => true,
                    _ => false,
                };
                self.expr(e)?;
                if !is_new_local && !defines_binding {
                    self.emit(OpCode::Pop);
                }
            },
        }
        Ok(())
    }
}


impl Compiler {
    /// Compile an expression: its value is left on the stack.
    #[verifier::rlimit(60)]
    fn expr(&mut self, expr: &Expr) -> (res: Result<(), CompileError>)
        requires
            old(self).inv(),
        ensures
            Compiler::step(old(self), final(self), res is Ok),
            pure_expr(*expr) ==> res is Ok && final(self).top_code() == old(self).top_code() + pure_code(
                *expr,
                old(self).states@.last().chunk.constants@.len(),
            ) && final(self).states@.last().chunk.constants@ == old(self).states@.last().chunk.constants@ + pure_constants(*expr)
                && final(self).states@.last().loop_stack == old(self).states@.last().loop_stack,
            scoped_expr(*expr, local_names(old(self).states@.last())) ==> res is Ok && final(self).top_code()
                == old(self).top_code() + scoped_code(
                *expr,
                local_names(old(self).states@.last()),
                old(self).states@.last().chunk.constants@.len(),
            ) && final(self).states@.last().chunk.constants@ == old(self).states@.last().chunk.constants@ + pure_constants(*expr)
                && final(self).states@.last().locals == old(self).states@.last().locals
                && final(self).states@.last().loop_stack == old(self).states@.last().loop_stack
                && (forall|d: int| 0 <= d < old(self).states@.len() - 1 ==> (#[trigger] final(self).states@[d]) == old(self).states@[d]),
            pure_if(*expr) ==> res is Ok && final(self).top_code() == old(self).top_code() + pure_if_code(
                *expr,
                old(self).states@.last().chunk.constants@.len(),
            ) && final(self).states@.last().chunk.constants@ == old(self).states@.last().chunk.constants@ + pure_if_constants(*expr),
            match *expr {
                Expr::Literal(v) => res is Ok && final(self).top_code() == old(self).top_code().push(
                    literal_op(v, old(self).states@.last().chunk.constants@.len()),
                ) && final(self).states@.last().chunk.constants@ == old(self).states@.last().chunk.constants@ + literal_constants(v),
                Expr::SelfExpr => res is Ok && final(self).top_code() == old(self).top_code().push(OpCode::GetSelf),
                Expr::Variable(n) => (res is Err <==> {
                    &&& !has_local(old(self).states@.last(), n@)
                    &&& !upvalue_reachable(old(self).states@, old(self).states@.len() - 1, n@)
                    &&& !(old(self).global_mode || old(self).has_imports || (n@.len() > 0 && is_uppercase_char(n@[0])))
                }) && (res is Ok ==> final(self).top_code().len() == old(self).top_code().len() + 1),
                Expr::Unary { op, .. } => res is Ok ==> (unary_code(op.kind) matches Some(c) && final(self).top_code().last() == c),
                Expr::Binary { op, .. } => res is Ok ==> match op.kind {
                    TokenKind::AmpAmp | TokenKind::PipePipe => true,
                    k => binary_code(k) matches Some(c) && final(self).top_code().last() == c,
                },
                Expr::Get { .. } => res is Ok ==> final(self).top_code().last() is GetField,
                Expr::SafeGet { .. } => res is Ok ==> final(self).top_code().last() is GetFieldSafe,
                Expr::SetAttr { .. } => res is Ok ==> final(self).top_code().last() is SetField,
                Expr::Assign { name, value } => scoped_expr(*value, local_names(old(self).states@.last()))
                    && local_names(old(self).states@.last()).contains(name@) ==> res is Ok && final(self).top_code()
                    == old(self).top_code() + scoped_code(
                    *value,
                    local_names(old(self).states@.last()),
                    old(self).states@.last().chunk.constants@.len(),
                ) + seq![OpCode::SetLocal(latest_slot(local_names(old(self).states@.last()), name@) as usize)],
                _ => true,
            },
            match *expr {
                Expr::Assign { name, value } => (scoped_expr(*value, local_names(old(self).states@.last()))
                    && !local_names(old(self).states@.last()).contains(name@)
                    && !upvalue_reachable(old(self).states@, old(self).states@.len() - 1, name@)
                    && !(old(self).global_mode && old(self).states@.len() == 1)) ==> res is Ok && final(self).top_code() == old(self).top_code() + scoped_code(
                    *value,
                    local_names(old(self).states@.last()),
                    old(self).states@.last().chunk.constants@.len(),
                ) && local_names(final(self).states@.last()) == local_names(old(self).states@.last()).push(name@),
                _ => true,
            },
        decreases *expr, 5nat,
    {
        match expr {
            Expr::Return(_) | Expr::Break(_) | Expr::Next(_) | Expr::Raise(_) => self.stmt(expr),
            Expr::While { .. } | Expr::MultiAssign { .. } | Expr::Import { .. } | Expr::TypeAlias { .. }
            | Expr::Interface { .. } => {
                self.stmt(expr)?;
                self.emit(OpCode::Nil);
                Ok(())
            },
            Expr::Literal(v) => {
                self.literal(v);
                Ok(())
            },
            Expr::Grouping(inner) => self.expr(inner),
            Expr::Unary { op, right } => {
                self.set_position(op.line as u32, Some(op.column as u32));
                self.expr(right)?;
                match &op.kind {
                    TokenKind::Minus => self.emit(OpCode::Negate),
                    TokenKind::Bang => self.emit(OpCode::Not),
                    TokenKind::Tilde => self.emit(OpCode::BitNot),
                    other => {
                        let m = msg(&["unsupported unary operator '", other.debug_string().as_str(), "'"]);
                        return Err(self.error(m));
                    },
                }
                Ok(())
            },
            Expr::Binary { left, op, right } => {
                self.set_position(op.line as u32, Some(op.column as u32));
                match &op.kind {
                    TokenKind::AmpAmp => {
                        self.expr(left)?;
                        let j = self.emit_jump(OpCode::JumpIfFalseKeep(0));
                        assert(is_forward_jump(self.top_code()[j as int]));
                        self.expr(right)?;
                        self.patch_jump(j);
                        return Ok(());
                    },
                    TokenKind::PipePipe => {
                        self.expr(left)?;
                        let j = self.emit_jump(OpCode::JumpIfTrueKeep(0));
                        assert(is_forward_jump(self.top_code()[j as int]));
                        self.expr(right)?;
                        self.patch_jump(j);
                        return Ok(());
                    },
                    _ => {},
                }
                self.expr(left)?;
                self.expr(right)?;
                match &op.kind {
                    TokenKind::Plus => self.emit(OpCode::Add),
                    TokenKind::Minus => self.emit(OpCode::Sub),
                    TokenKind::Star => self.emit(OpCode::Mul),
                    TokenKind::Slash => self.emit(OpCode::Div),
                    TokenKind::Percent => self.emit(OpCode::Mod),
                    TokenKind::Amp => self.emit(OpCode::BitAnd),
                    TokenKind::Pipe => self.emit(OpCode::BitOr),
                    TokenKind::Caret => self.emit(OpCode::BitXor),
                    TokenKind::LessLess => self.emit(OpCode::Shl),
                    TokenKind::GreaterGreater => self.emit(OpCode::Shr),
                    TokenKind::EqEq => self.emit(OpCode::Equal),
                    TokenKind::BangEq => self.emit(OpCode::NotEqual),
                    TokenKind::Less => self.emit(OpCode::Less),
                    TokenKind::LessEq => self.emit(OpCode::LessEqual),
                    TokenKind::Greater => self.emit(OpCode::Greater),
                    TokenKind::GreaterEq => self.emit(OpCode::GreaterEqual),
                    other => {
                        let m = msg(&["unsupported binary operator '", other.debug_string().as_str(), "'"]);
                        return Err(self.error(m));
                    },
                }
                Ok(())
            },
            Expr::Variable(name) => self.expr_variable(name.as_str()),
            Expr::Assign { .. } => self.compile_assign(expr),
            Expr::SelfExpr => {
                self.emit(OpCode::GetSelf);
                Ok(())
            },
            Expr::Call { .. } => self.expr_call(expr),
            Expr::Yield { args } => {
                let n = args.len();
                self.args(args, Ghost(*expr))?;
                self.emit(OpCode::Yield(n));
                Ok(())
            },
            Expr::Get { object, name, line } => {
                if *line > 0 {
                    self.set_position(*line as u32, None);
                }
                self.expr(object)?;
                let idx = self.add_str(name.clone());
                self.emit(OpCode::GetField(idx));
                Ok(())
            },
            Expr::SafeGet { object, name, line } => {
                if *line > 0 {
                    self.set_position(*line as u32, None);
                }
                self.expr(object)?;
                let idx = self.add_str(name.clone());
                self.emit(OpCode::GetFieldSafe(idx));
                Ok(())
            },
            Expr::SetAttr { object, name, value } => {
                self.expr(object)?;
                self.expr(value)?;
                let idx = self.add_str(name.clone());
                self.emit(OpCode::SetField(idx));
                Ok(())
            },
            Expr::ListLit(elems) => {
                let n = elems.len();
                proof {
                    crate::typechecker::lemma_exprs_below(*expr, *elems);
                }
                let mut i: usize = 0;
                while i < elems.len()
                    invariant
                        i <= elems@.len(),
                        self.inv(),
                        Compiler::step(old(self), self, true),
                        *expr is ListLit,
                        forall|k: int| 0 <= k < elems@.len() ==> decreases_to!(*expr => #[trigger] elems@[k]),
                    decreases elems@.len() - i,
                {
                    assert(decreases_to!(*expr => elems@[i as int]));
                    self.expr(&elems[i])?;
                    i += 1;
                }
                self.emit(OpCode::BuildList(n));
                Ok(())
            },
            Expr::MapLit(pairs) => {
                let n = pairs.len();
                proof {
                    assert(decreases_to!(*expr => *pairs));
                    assert forall|k: int| 0 <= k < pairs@.len() implies decreases_to!(*expr => #[trigger] pairs@[k].1) by {
                        assert(decreases_to!(*pairs => pairs@));
                        assert(decreases_to!(pairs@ => pairs@[k]));
                        assert(decreases_to!(pairs@[k] => pairs@[k].1));
                    }
                }
                let mut i: usize = 0;
                while i < pairs.len()
                    invariant
                        i <= pairs@.len(),
                        self.inv(),
                        Compiler::step(old(self), self, true),
                        *expr is MapLit,
                        forall|k: int| 0 <= k < pairs@.len() ==> decreases_to!(*expr => #[trigger] pairs@[k].1),
                    decreases pairs@.len() - i,
                {
                    let idx = self.add_str(pairs[i].0.clone());
                    self.emit(OpCode::Constant(idx));
                    assert(decreases_to!(*expr => pairs@[i as int].1));
                    self.expr(&pairs[i].1)?;
                    i += 1;
                }
                self.emit(OpCode::BuildMap(n));
                Ok(())
            },
            Expr::Range { from, to } => {
                self.expr(from)?;
                self.expr(to)?;
                self.emit(OpCode::BuildRange);
                Ok(())
            },
            Expr::Index { object, index } => {
                self.expr(object)?;
                self.expr(index)?;
                self.emit(OpCode::Index);
                Ok(())
            },
            Expr::IndexSet { object, index, value } => {
                self.expr(object)?;
                self.expr(index)?;
                self.expr(value)?;
                self.emit(OpCode::IndexSet);
                Ok(())
            },
            Expr::StringInterp(parts) => {
                let n = parts.len();
                proof {
                    assert(decreases_to!(*expr => *parts));
                    assert forall|k: int| 0 <= k < parts@.len() implies decreases_to!(*expr => #[trigger] parts@[k]) by {
                        assert(decreases_to!(*parts => parts@));
                        assert(decreases_to!(parts@ => parts@[k]));
                    }
                }
                let mut i: usize = 0;
                while i < parts.len()
                    invariant
                        i <= parts@.len(),
                        self.inv(),
                        Compiler::step(old(self), self, true),
                        *expr is StringInterp,
                        forall|k: int| 0 <= k < parts@.len() ==> decreases_to!(*expr => #[trigger] parts@[k]),
                    decreases parts@.len() - i,
                {
                    assert(decreases_to!(*expr => parts@[i as int]));
                    match &parts[i] {
                        StringPart::Lit(st) => {
                            let idx = self.add_str(st.clone());
                            self.emit(OpCode::Constant(idx));
                        },
                        StringPart::Expr(inner) => {
                            proof {
                                assert(decreases_to!(parts@[i as int] => **inner));
                            }
                            self.expr(inner)?;
                        },
                    }
                    i += 1;
                }
                self.emit(OpCode::BuildString(n));
                Ok(())
            },
            Expr::Super { args, forward_args, .. } => {
                if *forward_args && args.len() > 0 {
                    return Err(self.error(String::from_str("internal: bare super with non-empty args")));
                }
                self.emit(OpCode::GetSelf);
                let k = self.states.len() - 1;
                let arity = self.states[k].arity;
                let arg_count = if *forward_args {
                    let mut slot: usize = 0;
                    while slot < arity
                        invariant
                            self.inv(),
                            Compiler::step(old(self), self, true),
                        decreases arity - slot,
                    {
                        self.emit(OpCode::GetLocal(slot + 1));
                        slot += 1;
                    }
                    arity
                } else {
                    self.args(args, Ghost(*expr))?;
                    args.len()
                };
                let k = self.states.len() - 1;
                let method_name = match &self.states[k].super_method_name {
                    Some(m) => m.clone(),
                    None => {
                        return Err(self.error(String::from_str("`super` is only valid inside a class method")));
                    },
                };
                let name_idx = self.add_str(method_name);
                self.emit(OpCode::SuperInvoke(name_idx, arg_count));
                Ok(())
            },
            Expr::Print(inner) => {
                self.expr(inner)?;
                self.emit(OpCode::Print);
                Ok(())
            },
            Expr::Class { .. } => self.compile_class(expr, true),
            Expr::Function { .. } => self.expr_function(expr),
            Expr::If { .. } => self.compile_if(expr),
            Expr::Match { .. } => self.compile_match(expr),
            Expr::Begin { .. } => self.compile_begin(expr),
            Expr::Lambda { params, body } => {
                let line = self.current_line();
                let ghost s0 = *self;
                self.push_fn("<lambda>", params.len(), line);
                let ghost sp = *self;
                let _ = self.push_local(String::from_str("<lambda>"));
                let mut i: usize = 0;
                while i < params.len()
                    invariant
                        i <= params@.len(),
                        self.inv(),
                        Compiler::step(&sp, self, true),
                    decreases params@.len() - i,
                {
                    let _ = self.push_local(params[i].clone());
                    i += 1;
                }
                proof {
                    crate::typechecker::lemma_exprs_below(*expr, *body);
                }
                self.compile_body(body, Ghost(*expr))?;
                let ghost sb = *self;
                let func = self.pop_fn();
                proof {
                    lemma_nested(s0, sp, sb, *self);
                }
                let idx = self.add_const(Constant::Function(func));
                self.emit(OpCode::Closure(idx));
                Ok(())
            },
            Expr::IVar { .. } => Err(self.error(String::from_str("expression not yet supported by compiler: Discriminant(20)"))),
            Expr::IVarSet { .. } => Err(self.error(String::from_str("expression not yet supported by compiler: Discriminant(21)"))),
        }
    }

    /// Compile the values of call arguments, in order.
    fn args(&mut self, args: &Vec<crate::ast::CallArg>, Ghost(parent): Ghost<Expr>) -> (res: Result<(), CompileError>)
        requires
            old(self).inv(),
            decreases_to!(parent => *args),
        ensures
            Compiler::step(old(self), final(self), res is Ok),
        decreases parent, 0nat,
    {
        let mut i: usize = 0;
        while i < args.len()
            invariant
                i <= args@.len(),
                self.inv(),
                Compiler::step(old(self), self, true),
                decreases_to!(parent => *args),
            decreases args@.len() - i,
        {
            proof {
                assert(decreases_to!(*args => args@));
                assert(decreases_to!(args@ => args@[i as int]));
                assert(decreases_to!(args@[i as int] => args@[i as int].value));
            }
            self.expr(&args[i].value)?;
            i += 1;
        }
        Ok(())
    }

    fn expr_variable(&mut self, name: &str) -> (res: Result<(), CompileError>)
        requires
            old(self).inv(),
        ensures
            Compiler::step(old(self), final(self), res is Ok),
            res is Err <==> {
                &&& !has_local(old(self).states@.last(), name@)
                &&& !upvalue_reachable(old(self).states@, old(self).states@.len() - 1, name@)
                &&& !(old(self).global_mode || old(self).has_imports || (name@.len() > 0 && is_uppercase_char(name@[0])))
            },
            res is Ok ==> final(self).top_code().len() == old(self).top_code().len() + 1,
            has_local(old(self).states@.last(), name@) ==> (final(self).top_code().last() matches OpCode::GetLocal(k)
                && k < old(self).states@.last().locals@.len() && old(self).states@.last().locals@[k as int].name@ == name@),
            !has_local(old(self).states@.last(), name@) && upvalue_reachable(old(self).states@, old(self).states@.len() - 1, name@)
                ==> final(self).top_code().last() is GetUpvalue,
            local_names(old(self).states@.last()).contains(name@) ==> {
                &&& final(self).top_code() == old(self).top_code().push(
                    OpCode::GetLocal(latest_slot(local_names(old(self).states@.last()), name@) as usize),
                )
                &&& final(self).states@.last().locals == old(self).states@.last().locals
                &&& final(self).states@.last().chunk.constants@ == old(self).states@.last().chunk.constants@
                &&& final(self).states@.last().loop_stack == old(self).states@.last().loop_stack
                &&& forall|d: int| 0 <= d < old(self).states@.len() - 1 ==> (#[trigger] final(self).states@[d]) == old(self).states@[d]
            },
    {
        let depth = self.depth();
        let ghost names = local_names(self.states@.last());
        proof {
            if names.contains(name@) {
                let j = choose|j: int| 0 <= j < names.len() && names[j] == name@;
                assert(self.states@.last().locals@[j].name@ == name@);
            }
        }
        if let Some(slot) = self.resolve_local(depth, name) {
            proof {
                assert forall|j: int| slot < j < names.len() implies names[j] != name@ by {
                    assert(self.states@[depth as int].locals@[j].name@ != name@);
                }
                lemma_latest_slot(names, name@, slot as int);
            }
            self.emit(OpCode::GetLocal(slot));
        } else if let Some(idx) = self.resolve_upvalue(depth, name) {
            self.emit(OpCode::GetUpvalue(idx));
        } else if self.global_mode || self.has_imports || first_is_uppercase(name) {
            self.emit_maybe_lexical_or_global(name);
        } else {
            let mut candidates: Vec<String> = Vec::new();
            let mut d: usize = 0;
            while d < self.states.len()
                invariant
                    d <= self.states@.len(),
                decreases self.states@.len() - d,
            {
                let locals = &self.states[d].locals;
                let mut j: usize = 0;
                while j < locals.len()
                    invariant
                        j <= locals@.len(),
                    decreases locals@.len() - j,
                {
                    candidates.push(locals[j].name.clone());
                    j += 1;
                }
                d += 1;
            }
            let m = match suggest_name(name, &candidates) {
                Some(k) => msg(&["undefined variable '", name, "' \u{2014} did you mean '", candidates[k].as_str(), "'?"]),
                None => msg(&["undefined variable '", name, "'"]),
            };
            return Err(self.error(m));
        }
        Ok(())
    }
}


impl Compiler {
    /// Compile an assignment: the value, then the store into the latest
    /// local, upvalue or global of that name; a name that is none of these
    /// becomes a new local, which holds the value in its slot.
    fn compile_assign(&mut self, expr: &Expr) -> (res: Result<(), CompileError>)
        requires
            old(self).inv(),
            expr is Assign,
        ensures
            Compiler::step(old(self), final(self), res is Ok),
            match *expr {
                Expr::Assign { name, value } => {
                    &&& scoped_expr(*value, local_names(old(self).states@.last())) && local_names(
                        old(self).states@.last(),
                    ).contains(name@) ==> res is Ok && final(self).top_code() == old(self).top_code() + scoped_code(
                        *value,
                        local_names(old(self).states@.last()),
                        old(self).states@.last().chunk.constants@.len(),
                    ) + seq![OpCode::SetLocal(latest_slot(local_names(old(self).states@.last()), name@) as usize)]
                    &&& (scoped_expr(*value, local_names(old(self).states@.last())) && !local_names(
                        old(self).states@.last(),
                    ).contains(name@) && !upvalue_reachable(old(self).states@, old(self).states@.len() - 1, name@)
                        && !(old(self).global_mode && old(self).states@.len() == 1)) ==> res is Ok && final(self).top_code()
                        == old(self).top_code() + scoped_code(
                        *value,
                        local_names(old(self).states@.last()),
                        old(self).states@.last().chunk.constants@.len(),
                    ) && local_names(final(self).states@.last()) == local_names(old(self).states@.last()).push(name@)
                },
                _ => true,
            },
        decreases *expr, 4nat,
    {
        if let Expr::Assign { name, value } = expr {
            let ghost names = local_names(self.states@.last());
            let ghost before = self.states@;
            let global_mode = self.global_mode;
            proof {
                assert(decreases_to!(*expr => **value));
            }
            self.expr(value)?;
            let depth = self.depth();
            if let Some(slot) = self.resolve_local(depth, name.as_str()) {
                proof {
                    if scoped_expr(**value, names) {
                        assert(local_names(self.states@.last()) == names);
                        assert forall|j: int| slot < j < names.len() implies names[j] != name@ by {
                            assert(self.states@[depth as int].locals@[j].name@ != name@);
                        }
                        lemma_latest_slot(names, name@, slot as int);
                        assert(names[slot as int] == name@);
                        assert(names.contains(name@));
                    }
                }
                self.emit(OpCode::SetLocal(slot));
            } else {
                proof {
                    if scoped_expr(**value, names) {
                        lemma_upvalue_same(before, self.states@, depth as int, name@);
                    }
                }
                if let Some(idx) = self.resolve_upvalue(depth, name.as_str()) {
                    proof {
                        assert(!(scoped_expr(**value, names) && !upvalue_reachable(before, before.len() - 1, name@)));
                    }
                    self.emit(OpCode::SetUpvalue(idx));
                } else if global_mode && depth == 0 {
                    proof {
                        assert(before.len() == 1);
                        assert(old(self).global_mode);
                    }
                    let idx = self.add_str(name.clone());
                    self.emit(OpCode::SetGlobal(idx));
                } else {
                    let ghost pre = self.states@.last();
                    let ghost pre_states = self.states@;
                    let ghost pre_code = self.top_code();
                    let _ = self.push_local(name.clone());
                    proof {
                        assert(local_names(self.states@.last()) =~= local_names(pre).push(name@));
                        assert(scoped_expr(**value, names) ==> local_names(pre) == names);
                        assert(scoped_expr(**value, names) ==> pre_code == before.last().chunk.code@ + scoped_code(**value, names, before.last().chunk.constants@.len()));
                        let t = self.states@.len() - 1;
                        assert(self.states@[t].chunk.code@ == pre_states[t].chunk.code@);
                        assert(self.top_code() == pre_code);
                        assert(old(self).top_code() == before.last().chunk.code@);
                        assert(scoped_expr(**value, names) ==> self.top_code() == old(self).top_code() + scoped_code(
                            **value,
                            names,
                            before.last().chunk.constants@.len(),
                        ));
                    }
                }
            }
        }
        Ok(())
    }
}

proof fn lemma_upvalue_same(a: Seq<FunctionState>, b: Seq<FunctionState>, depth: int, name: Seq<char>)
    requires
        depth < a.len(),
        depth < b.len(),
        forall|d: int| 0 <= d < depth ==> (#[trigger] b[d]) == a[d],
    ensures
        upvalue_reachable(a, depth, name) == upvalue_reachable(b, depth, name),
    decreases depth,
{
    if depth > 0 {
        lemma_upvalue_same(a, b, depth - 1, name);
    }
}

impl Compiler {
    fn expr_call(&mut self, expr: &Expr) -> (res: Result<(), CompileError>)
        requires
            old(self).inv(),
            expr is Call,
        ensures
            Compiler::step(old(self), final(self), res is Ok),
            res is Ok ==> final(self).top_code().len() > old(self).top_code().len(),
        decreases *expr, 3nat,
    {
        if let Expr::Call { callee, args, block } = expr {
            proof {
                assert(decreases_to!(*expr => *args));
                assert(decreases_to!(*expr => **callee));
            }
            if let Expr::Get { object, name, line } = &**callee {
                proof {
                    assert(decreases_to!(**callee => **object));
                }
                if *line > 0 {
                    self.set_position(*line as u32, None);
                }
                if str_is(name, "new") && block.is_none() {
                    self.expr(object)?;
                    let mut i: usize = 0;
                    while i < args.len()
                        invariant
                            i <= args@.len(),
                            self.inv(),
                            Compiler::step(old(self), self, true),
                            decreases_to!(*expr => *args),
                        decreases args@.len() - i,
                    {
                        let arg_name = match &args[i].name {
                            Some(n) => n.clone(),
                            None => String::new(),
                        };
                        let ni = self.add_str(arg_name);
                        self.emit(OpCode::Constant(ni));
                        proof {
                            assert(decreases_to!(*args => args@));
                            assert(decreases_to!(args@ => args@[i as int]));
                            assert(decreases_to!(args@[i as int] => args@[i as int].value));
                        }
                        self.expr(&args[i].value)?;
                        i += 1;
                    }
                    self.emit(OpCode::NewInstance(args.len()));
                } else if let Some(blk) = block {
                    self.expr(object)?;
                    self.args(args, Ghost(*expr))?;
                    proof {
                        assert(decreases_to!(*expr => *block));
                        assert(decreases_to!(*block => *blk));
                    }
                    self.compile_block(blk, Ghost(*expr))?;
                    let ni = self.add_str(name.clone());
                    self.emit(OpCode::InvokeWithBlock(ni, args.len()));
                } else {
                    self.expr(object)?;
                    self.args(args, Ghost(*expr))?;
                    let ni = self.add_str(name.clone());
                    self.emit(OpCode::Invoke(ni, args.len()));
                }
                return Ok(());
            }
            if let Expr::Variable(name) = &**callee {
                let depth = self.depth();
                let is_unresolved = self.resolve_local(depth, name.as_str()).is_none()
                    && self.resolve_upvalue(depth, name.as_str()).is_none();
                let self_in_scope = self.resolve_local(depth, "self").is_some();
                if is_unresolved && self_in_scope {
                    self.emit(OpCode::GetSelf);
                    let arg_count = args.len();
                    self.args(args, Ghost(*expr))?;
                    let ni = self.add_str(name.clone());
                    match block {
                        Some(blk) => {
                            proof {
                                assert(decreases_to!(*expr => *block));
                                assert(decreases_to!(*block => *blk));
                            }
                            self.compile_block(blk, Ghost(*expr))?;
                            self.emit(OpCode::InvokeWithBlock(ni, arg_count));
                        },
                        None => self.emit(OpCode::Invoke(ni, arg_count)),
                    }
                    return Ok(());
                }
            }
            self.expr(callee)?;
            let arg_count = args.len();
            self.args(args, Ghost(*expr))?;
            match block {
                Some(blk) => {
                    proof {
                        assert(decreases_to!(*expr => *block));
                        assert(decreases_to!(*block => *blk));
                    }
                    self.compile_block(blk, Ghost(*expr))?;
                    self.emit(OpCode::CallWithBlock(arg_count));
                },
                None => self.emit(OpCode::Call(arg_count)),
            }
            Ok(())
        } else {
            Ok(())
        }
    }

    /// Compile a block literal into a closure on the stack; its parameters
    /// are slots 1..n, slot 0 the closure itself.
    fn compile_block(&mut self, block: &Block, Ghost(parent): Ghost<Expr>) -> (res: Result<(), CompileError>)
        requires
            old(self).inv(),
            decreases_to!(parent => *block),
        ensures
            Compiler::step(old(self), final(self), res is Ok),
            res is Ok ==> final(self).top_code().len() > old(self).top_code().len(),
        decreases parent, 2nat,
    {
        let line = self.current_line();
        let ghost s0 = *self;
        self.push_fn("<block>", block.params.len(), line);
        let ghost sp = *self;
        let _ = self.push_local(String::new());
        let mut i: usize = 0;
        while i < block.params.len()
            invariant
                i <= block.params@.len(),
                self.inv(),
                Compiler::step(&sp, self, true),
            decreases block.params@.len() - i,
        {
            let _ = self.push_local(block.params[i].clone());
            i += 1;
        }
        proof {
            assert(decreases_to!(*block => block.body));
            crate::typechecker::lemma_exprs_below(parent, block.body);
        }
        self.compile_body(&block.body, Ghost(parent))?;
        let ghost sb = *self;
        let func = self.pop_fn();
        proof {
            lemma_nested(s0, sp, sb, *self);
        }
        let idx = self.add_const(Constant::Function(func));
        self.emit(OpCode::Closure(idx));
        Ok(())
    }

    /// Compile a named function into a closure bound to a local (a global at
    /// the top level of the REPL).
    fn expr_function(&mut self, expr: &Expr) -> (res: Result<(), CompileError>)
        requires
            old(self).inv(),
            expr is Function,
        ensures
            Compiler::step(old(self), final(self), res is Ok),
            res is Ok ==> final(self).top_code().len() > old(self).top_code().len(),
        decreases *expr, 3nat,
    {
        if let Expr::Function { name, type_params, params, return_type, body } = expr {
            let line = self.current_line();
            let ghost s0 = *self;
            self.push_fn(name.as_str(), params.len(), line);
            let ghost sp = *self;
            let rt = self.runtime_check(return_type, type_params);
            let pts = self.param_checks(params, type_params);
            self.set_types(rt, pts);
            let _ = self.push_local(name.clone());
            let mut i: usize = 0;
            while i < params.len()
                invariant
                    i <= params@.len(),
                    self.inv(),
                    Compiler::step(&sp, self, true),
                decreases params@.len() - i,
            {
                let _ = self.push_local(params[i].name.clone());
                i += 1;
            }
            proof {
                crate::typechecker::lemma_exprs_below(*expr, *body);
            }
            self.compile_body(body, Ghost(*expr))?;
            let ghost sb = *self;
            let func = self.pop_fn();
            proof {
                lemma_nested(s0, sp, sb, *self);
            }
            let idx = self.add_const(Constant::Function(func));
            self.emit(OpCode::Closure(idx));
            if self.global_mode && self.states.len() == 1 {
                let ni = self.add_str(name.clone());
                self.emit(OpCode::SetGlobal(ni));
            } else {
                let _ = self.push_local(name.clone());
            }
        }
        Ok(())
    }
}


impl Compiler {
    /// Compile `if`: the condition, a jump over the `then` branch when it is
    /// false, the `then` branch, and a jump over the `else` branch (which is
    /// `nil` when absent).
    fn compile_if(&mut self, expr: &Expr) -> (res: Result<(), CompileError>)
        requires
            old(self).inv(),
            expr is If,
        ensures
            Compiler::step(old(self), final(self), res is Ok),
            pure_if(*expr) ==> res is Ok && final(self).top_code() == old(self).top_code() + pure_if_code(
                *expr,
                old(self).states@.last().chunk.constants@.len(),
            ) && final(self).states@.last().chunk.constants@ == old(self).states@.last().chunk.constants@ + pure_if_constants(*expr),
        decreases *expr, 3nat,
    {
        if let Expr::If { condition, then_branch, else_branch } = expr {
            let ghost t0 = self.top_code();
            let ghost k0 = self.states@.last().chunk.constants@;
            self.expr(condition)?;
            let ghost t1 = self.top_code();
            let ghost k1 = self.states@.last().chunk.constants@;
            let jif = self.emit_jump(OpCode::JumpIfFalse(0));
            proof {
                crate::typechecker::lemma_exprs_below(*expr, *then_branch);
            }
            let ghost s1 = *self;
            self.compile_branch(then_branch, Ghost(*expr))?;
            let ghost t2 = self.top_code();
            let ghost k2 = self.states@.last().chunk.constants@;
            match else_branch {
                Some(else_stmts) => {
                    let jelse = self.emit_jump(OpCode::Jump(0));
                    let ghost s2 = *self;
                    proof {
                        lemma_jump_kept(s1, *self, jif);
                    }
                    self.patch_jump(jif);
                    proof {
                        assert(decreases_to!(*expr => *else_branch));
                        assert(decreases_to!(*else_branch => *else_stmts));
                        crate::typechecker::lemma_exprs_below(*expr, *else_stmts);
                    }
                    let ghost t3 = self.top_code();
                    self.compile_branch(else_stmts, Ghost(*expr))?;
                    proof {
                        lemma_jump_kept(s2, *self, jelse);
                    }
                    let ghost t4 = self.top_code();
                    let ghost k4 = self.states@.last().chunk.constants@;
                    self.patch_jump(jelse);
                    proof {
                        if pure_if(*expr) {
                            let c = pure_code(**condition, k0.len());
                            let kc = k0.len() + pure_constants(**condition).len();
                            let t = pure_code(then_branch@[0], kc);
                            let f = pure_code(else_stmts@[0], kc + pure_constants(then_branch@[0]).len());
                            assert(t1 == t0 + c);
                            assert(k1 == k0 + pure_constants(**condition));
                            assert(jif == t1.len());
                            assert(t2 == t1.push(OpCode::JumpIfFalse(0)) + t);
                            assert(k2 == k1 + pure_constants(then_branch@[0]));
                            assert(jelse == t2.len());
                            assert(s2.top_code() == t2.push(OpCode::Jump(0)));
                            assert(t3 =~= t0 + c + seq![OpCode::JumpIfFalse((t.len() + 1) as usize)] + t + seq![OpCode::Jump(0)]);
                            assert(t4 == t3 + f);
                            assert(self.top_code() =~= t0 + (c + seq![OpCode::JumpIfFalse((t.len() + 1) as usize)] + t
                                + seq![OpCode::Jump(f.len() as usize)] + f));
                            assert(k4 == k2 + pure_constants(else_stmts@[0]));
                            assert(self.states@.last().chunk.constants@ =~= k0 + (pure_constants(**condition) + pure_constants(
                                then_branch@[0],
                            ) + pure_constants(else_stmts@[0])));
                        }
                    }
                },
                None => {
                    let jend = self.emit_jump(OpCode::Jump(0));
                    let ghost s2 = *self;
                    proof {
                        lemma_jump_kept(s1, *self, jif);
                    }
                    self.patch_jump(jif);
                    self.emit(OpCode::Nil);
                    proof {
                        lemma_jump_kept(s2, *self, jend);
                    }
                    self.patch_jump(jend);
                },
            }
        }
        Ok(())
    }

    /// Compile `match`: the scrutinee stays in a hidden local slot; each arm
    /// tests it and on success runs its body and jumps to the end.
    fn compile_match(&mut self, expr: &Expr) -> (res: Result<(), CompileError>)
        requires
            old(self).inv(),
            expr is Match,
        ensures
            Compiler::step(old(self), final(self), res is Ok),
            res is Ok ==> match *expr {
                Expr::Match { arms, .. } => final(self).top_code().len() >= old(self).top_code().len() + arms@.len(),
                _ => true,
            },
        decreases *expr, 3nat,
    {
        if let Expr::Match { scrutinee, arms } = expr {
            self.expr(scrutinee)?;
            let scrutinee_slot = self.locals_len();
            let _ = self.push_local(String::from_str("__match__"));
            let mut end_jumps: Vec<usize> = Vec::new();
            let mut i: usize = 0;
            while i < arms.len()
                invariant
                    i <= arms@.len(),
                    self.inv(),
                    Compiler::step(old(self), self, true),
                    pending_ok(end_jumps@, self.top_code()),
                    *expr matches Expr::Match { arms: a, .. } && a == *arms,
                    self.top_code().len() >= old(self).top_code().len() + i,
                decreases arms@.len() - i,
            {
                let arm = &arms[i];
                proof {
                    assert(decreases_to!(*expr => *arms));
                    assert(decreases_to!(*arms => arms@));
                    assert(decreases_to!(arms@ => arms@[i as int]));
                    assert(decreases_to!(arms@[i as int] => arms@[i as int].body));
                    crate::typechecker::lemma_exprs_below(*expr, arms@[i as int].body);
                }
                let ghost before = *self;
                let binding = if arm.patterns.len() == 1 {
                    match &arm.patterns[0] {
                        Pattern::Binding(name) => Some(name.clone()),
                        _ => None,
                    }
                } else {
                    None
                };
                let fail_jumps = match binding {
                    Some(name) => {
                        self.rename_local(scrutinee_slot, name);
                        let mut fjs: Vec<usize> = Vec::new();
                        if let Some(guard) = &arm.guard {
                            proof {
                                assert(decreases_to!(arms@[i as int] => arms@[i as int].guard));
                            }
                            self.expr(guard)?;
                            let j = self.emit_jump(OpCode::JumpIfFalse(0));
                            fjs.push(j);
                        }
                        fjs
                    },
                    None => self.compile_arm_check(arm, scrutinee_slot)?,
                };
                proof {
                    lemma_pending_grows(end_jumps@, before.top_code(), self.top_code());
                }
                let ghost mid = *self;
                self.compile_branch(&arm.body, Ghost(*expr))?;
                proof {
                    lemma_pending_grows(end_jumps@, mid.top_code(), self.top_code());
                    lemma_pending_grows(fail_jumps@, mid.top_code(), self.top_code());
                }
                let j = self.emit_jump(OpCode::Jump(0));
                end_jumps.push(j);
                let mut k: usize = 0;
                while k < fail_jumps.len()
                    invariant
                        k <= fail_jumps@.len(),
                        self.inv(),
                        Compiler::step(old(self), self, true),
                        pending_ok(end_jumps@, self.top_code()),
                        pending_ok(fail_jumps@, self.top_code()),
                        self.top_code().len() >= old(self).top_code().len() + i + 1,
                    decreases fail_jumps@.len() - k,
                {
                    let ghost b0 = *self;
                    self.patch_jump(fail_jumps[k]);
                    proof {
                        lemma_pending_grows(end_jumps@, b0.top_code(), self.top_code());
                        lemma_pending_grows(fail_jumps@, b0.top_code(), self.top_code());
                    }
                    k += 1;
                }
                self.rename_local(scrutinee_slot, String::from_str("__match__"));
                i += 1;
            }
            let mut k: usize = 0;
            while k < end_jumps.len()
                invariant
                    k <= end_jumps@.len(),
                    self.inv(),
                    Compiler::step(old(self), self, true),
                    pending_ok(end_jumps@, self.top_code()),
                    self.top_code().len() >= old(self).top_code().len() + arms@.len(),
                decreases end_jumps@.len() - k,
            {
                let ghost b0 = *self;
                self.patch_jump(end_jumps[k]);
                proof {
                    lemma_pending_grows(end_jumps@, b0.top_code(), self.top_code());
                }
                k += 1;
            }
        }
        Ok(())
    }

    /// Emit the test of a non-binding arm; the jumps to take when it fails.
    fn compile_arm_check(&mut self, arm: &MatchArm, scrutinee_slot: usize) -> (res: Result<Vec<usize>, CompileError>)
        requires
            old(self).inv(),
        ensures
            Compiler::step(old(self), final(self), res is Ok),
            res is Err <==> arm.patterns@.len() == 0,
            res matches Ok(js) ==> pending_ok(js@, final(self).top_code()) && js@.len() == 1,
    {
        let mut fail_jumps: Vec<usize> = Vec::new();
        let n = arm.patterns.len();
        if n == 0 {
            return Err(self.error(String::from_str("match arm without a pattern")));
        }
        if n > 1 {
            let mut body_jumps: Vec<usize> = Vec::new();
            let mut i: usize = 0;
            while i < n
                invariant
                    i <= n,
                    n == arm.patterns@.len(),
                    self.inv(),
                    Compiler::step(old(self), self, true),
                    pending_ok(body_jumps@, self.top_code()),
                    pending_ok(fail_jumps@, self.top_code()),
                    fail_jumps@.len() == (if i == n { 1int } else { 0int }),
                decreases n - i,
            {
                let ghost b0 = *self;
                self.emit_pattern_test(&arm.patterns[i], scrutinee_slot);
                if i < n - 1 {
                    self.emit(OpCode::Not);
                    let j = self.emit_jump(OpCode::JumpIfFalse(0));
                    proof {
                        lemma_pending_grows(body_jumps@, b0.top_code(), self.top_code());
                        lemma_pending_grows(fail_jumps@, b0.top_code(), self.top_code());
                    }
                    body_jumps.push(j);
                } else {
                    let j = self.emit_jump(OpCode::JumpIfFalse(0));
                    proof {
                        lemma_pending_grows(body_jumps@, b0.top_code(), self.top_code());
                        lemma_pending_grows(fail_jumps@, b0.top_code(), self.top_code());
                    }
                    fail_jumps.push(j);
                }
                i += 1;
            }
            let mut k: usize = 0;
            while k < body_jumps.len()
                invariant
                    k <= body_jumps@.len(),
                    self.inv(),
                    Compiler::step(old(self), self, true),
                    pending_ok(body_jumps@, self.top_code()),
                    pending_ok(fail_jumps@, self.top_code()),
                    fail_jumps@.len() == 1,
                decreases body_jumps@.len() - k,
            {
                let ghost b0 = *self;
                self.patch_jump(body_jumps[k]);
                proof {
                    lemma_pending_grows(body_jumps@, b0.top_code(), self.top_code());
                    lemma_pending_grows(fail_jumps@, b0.top_code(), self.top_code());
                }
                k += 1;
            }
        } else {
            self.emit_pattern_test(&arm.patterns[0], scrutinee_slot);
            let j = self.emit_jump(OpCode::JumpIfFalse(0));
            fail_jumps.push(j);
        }
        Ok(fail_jumps)
    }

    /// Emit a test leaving `true` on the stack when the scrutinee in
    /// `scrutinee_slot` matches `pattern`.
    fn emit_pattern_test(&mut self, pattern: &Pattern, scrutinee_slot: usize)
        requires
            old(self).inv(),
        ensures
            Compiler::step(old(self), final(self), true),
            match *pattern {
                Pattern::Wildcard | Pattern::Binding(_) => final(self).top_code() == old(self).top_code().push(OpCode::True),
                Pattern::Type(n) => final(self).top_code() == old(self).top_code().push(OpCode::GetLocal(scrutinee_slot)).push(
                    OpCode::IsA(n),
                ),
                Pattern::Literal(v) => final(self).top_code() == old(self).top_code().push(OpCode::GetLocal(scrutinee_slot)).push(
                    literal_op(v, old(self).states@.last().chunk.constants@.len()),
                ).push(OpCode::Equal),
                _ => final(self).top_code().len() > old(self).top_code().len(),
            },
    {
        match pattern {
            Pattern::Wildcard | Pattern::Binding(_) => self.emit(OpCode::True),
            Pattern::Literal(val) => {
                self.emit(OpCode::GetLocal(scrutinee_slot));
                self.literal(val);
                self.emit(OpCode::Equal);
            },
            Pattern::Type(name) => {
                self.emit(OpCode::GetLocal(scrutinee_slot));
                self.emit(OpCode::IsA(name.clone()));
            },
            Pattern::Range(low, high) => {
                self.emit(OpCode::GetLocal(scrutinee_slot));
                self.literal(low);
                self.emit(OpCode::GreaterEqual);
                let jfalse = self.emit_jump(OpCode::JumpIfFalseKeep(0));
                let ghost sj = *self;
                self.emit(OpCode::GetLocal(scrutinee_slot));
                self.literal(high);
                self.emit(OpCode::LessEqual);
                proof {
                    lemma_jump_kept(sj, *self, jfalse);
                }
                self.patch_jump(jfalse);
            },
            Pattern::List(subs) => {
                let n = subs.len();
                let mut fail_jumps: Vec<usize> = Vec::new();
                self.emit(OpCode::GetLocal(scrutinee_slot));
                self.emit(OpCode::IsA(String::from_str("List")));
                let j = self.emit_jump(OpCode::JumpIfFalseKeep(0));
                fail_jumps.push(j);
                let ghost b0 = *self;
                self.emit(OpCode::GetLocal(scrutinee_slot));
                self.emit(OpCode::ListLen);
                let nc = self.add_const(Constant::Int(n as i64));
                self.emit(OpCode::Constant(nc));
                self.emit(OpCode::Equal);
                let j = self.emit_jump(OpCode::JumpIfFalseKeep(0));
                proof {
                    lemma_pending_grows(fail_jumps@, b0.top_code(), self.top_code());
                }
                fail_jumps.push(j);
                let mut i: usize = 0;
                while i < n
                    invariant
                        i <= n,
                        n == subs@.len(),
                        self.inv(),
                        Compiler::step(old(self), self, true),
                        self.top_code().len() > old(self).top_code().len(),
                        pending_ok(fail_jumps@, self.top_code()),
                    decreases n - i,
                {
                    let ghost b1 = *self;
                    self.emit(OpCode::GetLocal(scrutinee_slot));
                    let ic = self.add_const(Constant::Int(i as i64));
                    self.emit(OpCode::Constant(ic));
                    self.emit(OpCode::Index);
                    self.emit_list_element_check(&subs[i]);
                    let j = self.emit_jump(OpCode::JumpIfFalseKeep(0));
                    proof {
                        lemma_pending_grows(fail_jumps@, b1.top_code(), self.top_code());
                    }
                    fail_jumps.push(j);
                    i += 1;
                }
                let ghost b2 = *self;
                self.emit(OpCode::True);
                proof {
                    lemma_pending_grows(fail_jumps@, b2.top_code(), self.top_code());
                }
                let mut k: usize = 0;
                while k < fail_jumps.len()
                    invariant
                        k <= fail_jumps@.len(),
                        self.inv(),
                        Compiler::step(old(self), self, true),
                        self.top_code().len() > old(self).top_code().len(),
                        pending_ok(fail_jumps@, self.top_code()),
                    decreases fail_jumps@.len() - k,
                {
                    let ghost b3 = *self;
                    self.patch_jump(fail_jumps[k]);
                    proof {
                        lemma_pending_grows(fail_jumps@, b3.top_code(), self.top_code());
                    }
                    k += 1;
                }
            },
        }
    }

    /// Given a list element on the stack, emit a test that consumes it and
    /// leaves whether it matches `pattern`.
    fn emit_list_element_check(&mut self, pattern: &Pattern)
        requires
            old(self).inv(),
        ensures
            Compiler::step(old(self), final(self), true),
            final(self).top_code().len() > old(self).top_code().len(),
    {
        match pattern {
            Pattern::Wildcard | Pattern::Binding(_) => {
                self.emit(OpCode::Pop);
                self.emit(OpCode::True);
            },
            Pattern::Literal(val) => {
                self.literal(val);
                self.emit(OpCode::Equal);
            },
            Pattern::Type(name) => self.emit(OpCode::IsA(name.clone())),
            Pattern::Range(low, high) => {
                let elem_pos = self.locals_len();
                self.emit(OpCode::GetLocal(elem_pos));
                self.literal(low);
                self.emit(OpCode::GreaterEqual);
                let first_fail = self.emit_jump(OpCode::JumpIfFalse(0));
                let ghost s1 = *self;
                self.literal(high);
                self.emit(OpCode::LessEqual);
                let end_jump = self.emit_jump(OpCode::Jump(0));
                let ghost s2 = *self;
                proof {
                    lemma_jump_kept(s1, *self, first_fail);
                }
                self.patch_jump(first_fail);
                self.emit(OpCode::Pop);
                self.emit(OpCode::False);
                proof {
                    lemma_jump_kept(s2, *self, end_jump);
                }
                self.patch_jump(end_jump);
            },
            Pattern::List(_) => {
                self.emit(OpCode::Pop);
                self.emit(OpCode::True);
            },
        }
    }
}


/// Rescue entries of the code being compiled, each still a `BeginRescue`.
spec fn rescues_ok(js: Seq<usize>, code: Seq<OpCode>) -> bool {
    forall|b: int| 0 <= b < js.len() ==> (#[trigger] js[b]) < code.len() && code[js[b] as int] is BeginRescue
}

proof fn lemma_rescues_grow(js: Seq<usize>, a: Seq<OpCode>, b: Seq<OpCode>)
    requires
        rescues_ok(js, a),
        grows(a, b),
    ensures
        rescues_ok(js, b),
{
    assert forall|k: int| 0 <= k < js.len() implies (#[trigger] js[k]) < b.len() && b[js[k] as int] is BeginRescue by {
        assert(a[js[k] as int] is BeginRescue);
    }
}

impl Compiler {
    /// Compile `begin` with an `ensure` part: the ensure statements run after
    /// the body and its handlers whether or not something was raised, and a
    /// raised error is raised again after them.
    fn compile_begin(&mut self, expr: &Expr) -> (res: Result<(), CompileError>)
        requires
            old(self).inv(),
            expr is Begin,
        ensures
            Compiler::step(old(self), final(self), res is Ok),
            res is Ok && (*expr matches Expr::Begin { ensure_body, .. } && ensure_body@.len() > 0) ==> final(self).top_code().len()
                > old(self).top_code().len(),
        decreases *expr, 3nat,
    {
        if let Expr::Begin { ensure_body, .. } = expr {
            if ensure_body.len() == 0 {
                return self.compile_begin_core(expr);
            }
            let err_slot = self.reserve_local(String::from_str("$ensure_error"));
            let result_slot = self.reserve_local(String::from_str("$ensure_result"));
            let raised_slot = self.reserve_local(String::from_str("$ensure_raised"));
            let ensure_idx = self.emit_begin_rescue(err_slot);
            let ghost b0 = *self;
            self.compile_begin_core(expr)?;
            self.emit(OpCode::SetLocal(result_slot));
            self.emit(OpCode::Pop);
            self.emit(OpCode::False);
            self.emit(OpCode::SetLocal(raised_slot));
            self.emit(OpCode::Pop);
            self.emit(OpCode::PopRescue);
            let jump_to_ensure = self.emit_jump(OpCode::Jump(0));
            let ghost sj = *self;
            proof {
                lemma_rescues_grow(seq![ensure_idx], b0.top_code(), self.top_code());
            }
            self.patch_rescue(ensure_idx);
            self.emit(OpCode::True);
            self.emit(OpCode::SetLocal(raised_slot));
            self.emit(OpCode::Pop);
            proof {
                lemma_jump_kept(sj, *self, jump_to_ensure);
            }
            self.patch_jump(jump_to_ensure);
            proof {
                crate::typechecker::lemma_exprs_below(*expr, *ensure_body);
            }
            self.stmts(ensure_body, Ghost(*expr))?;
            self.emit(OpCode::GetLocal(raised_slot));
            let normal_path = self.emit_jump(OpCode::JumpIfFalse(0));
            let ghost sn = *self;
            self.emit(OpCode::GetLocal(err_slot));
            self.emit(OpCode::Raise);
            proof {
                lemma_jump_kept(sn, *self, normal_path);
            }
            self.patch_jump(normal_path);
            self.emit(OpCode::GetLocal(result_slot));
        }
        Ok(())
    }

    /// Compile `begin` with its `rescue` clauses and `else` part: a handler is
    /// entered for each clause, innermost last; a clause with a type checks
    /// the raised value and raises it again when it does not fit.
    fn compile_begin_core(&mut self, expr: &Expr) -> (res: Result<(), CompileError>)
        requires
            old(self).inv(),
            expr is Begin,
        ensures
            Compiler::step(old(self), final(self), res is Ok),
        decreases *expr, 2nat,
    {
        if let Expr::Begin { body, rescue_clauses, else_body, .. } = expr {
            let n = rescue_clauses.len();
            let mut rescue_var_slots: Vec<usize> = Vec::new();
            let mut named_slots: Vec<(String, usize)> = Vec::new();
            let mut i: usize = 0;
            while i < n
                invariant
                    i <= n,
                    n == rescue_clauses@.len(),
                    rescue_var_slots@.len() == i,
                    self.inv(),
                    Compiler::step(old(self), self, true),
                decreases n - i,
            {
                let clause = &rescue_clauses[i];
                let slot = match &clause.var {
                    Some(name) => match find_key(&named_slots, name.as_str()) {
                        Some(k) => {
                            proof {
                                crate::typechecker::lemma_key_index_bounds(named_slots@, name@);
                            }
                            named_slots[k].1
                        },
                        None => {
                            let slot = self.reserve_local(name.clone());
                            named_slots.push((name.clone(), slot));
                            slot
                        },
                    },
                    None => if clause.type_ann.is_some() {
                        let mut nm = String::from_str("$rescue");
                        nm.append(usize_text(i).as_str());
                        self.reserve_local(nm)
                    } else {
                        usize::MAX
                    },
                };
                rescue_var_slots.push(slot);
                i += 1;
            }
            let locals_before_body = self.locals_len();
            let body_creates_new_local_result = match last_of_exprs(body) {
                Some(e) => self.is_new_local_assign(e),
                None => false,
            };
            let mut rev_indices: Vec<usize> = Vec::new();
            let mut i = n;
            while i > 0
                invariant
                    i <= n,
                    n == rescue_clauses@.len(),
                    rescue_var_slots@.len() == n,
                    rev_indices@.len() == n - i,
                    self.inv(),
                    Compiler::step(old(self), self, true),
                    rescues_ok(rev_indices@, self.top_code()),
                decreases i,
            {
                i -= 1;
                let ghost b0 = *self;
                let idx = self.emit_begin_rescue(rescue_var_slots[i]);
                proof {
                    lemma_rescues_grow(rev_indices@, b0.top_code(), self.top_code());
                }
                rev_indices.push(idx);
            }
            let mut begin_indices: Vec<usize> = Vec::new();
            let mut k = rev_indices.len();
            while k > 0
                invariant
                    k <= rev_indices@.len(),
                    begin_indices@.len() == rev_indices@.len() - k,
                    rescues_ok(rev_indices@, self.top_code()),
                    rescues_ok(begin_indices@, self.top_code()),
                decreases k,
            {
                k -= 1;
                begin_indices.push(rev_indices[k]);
            }
            proof {
                crate::typechecker::lemma_exprs_below(*expr, *body);
                crate::typechecker::lemma_exprs_below(*expr, *else_body);
            }
            let ghost b1 = *self;
            self.compile_branch(body, Ghost(*expr))?;
            proof {
                lemma_rescues_grow(begin_indices@, b1.top_code(), self.top_code());
            }
            let after = self.locals_len();
            let new_body_locals = if after >= locals_before_body {
                after - locals_before_body
            } else {
                0
            };
            if body_creates_new_local_result && after > 0 {
                self.emit(OpCode::GetLocal(after - 1));
            }
            let mut k: usize = 0;
            while k < n
                invariant
                    self.inv(),
                    Compiler::step(old(self), self, true),
                    rescues_ok(begin_indices@, self.top_code()),
                decreases n - k,
            {
                self.emit(OpCode::PopRescue);
                k += 1;
            }
            let jump_over_rescue = self.emit_jump(OpCode::Jump(0));
            let mut handler_jumps: Vec<usize> = Vec::new();
            let mut i: usize = 0;
            while i < n
                invariant
                    i <= n,
                    n == rescue_clauses@.len(),
                    rescue_var_slots@.len() == n,
                    begin_indices@.len() == n,
                    self.inv(),
                    Compiler::step(old(self), self, true),
                    rescues_ok(begin_indices@, self.top_code()),
                    pending_ok(handler_jumps@, self.top_code()),
                    pending_ok(seq![jump_over_rescue], self.top_code()),
                    *expr matches Expr::Begin { rescue_clauses: rc, .. } && rc == *rescue_clauses,
                decreases n - i,
            {
                let clause = &rescue_clauses[i];
                proof {
                    assert(decreases_to!(*expr => *rescue_clauses));
                    assert(decreases_to!(*rescue_clauses => rescue_clauses@));
                    assert(decreases_to!(rescue_clauses@ => rescue_clauses@[i as int]));
                    assert(decreases_to!(rescue_clauses@[i as int] => rescue_clauses@[i as int].body));
                    crate::typechecker::lemma_exprs_below(*expr, rescue_clauses@[i as int].body);
                }
                let ghost b2 = *self;
                self.patch_rescue(begin_indices[i]);
                let mut z: usize = 0;
                while z < new_body_locals
                    invariant
                        self.inv(),
                        Compiler::step(&b2, self, true),
                    decreases new_body_locals - z,
                {
                    self.emit(OpCode::Nil);
                    z += 1;
                }
                let mut type_check_failed: Option<usize> = None;
                if let Some(type_ann) = &clause.type_ann {
                    if let Some(rt) = type_expr_runtime(type_ann, &self.interfaces) {
                        self.emit(OpCode::GetLocal(rescue_var_slots[i]));
                        self.emit(OpCode::RescueMatch(rt));
                        let j = self.emit_jump(OpCode::JumpIfFalse(0));
                        type_check_failed = Some(j);
                    }
                }
                let mut z = i + 1;
                while z < n
                    invariant
                        self.inv(),
                        Compiler::step(&b2, self, true),
                        type_check_failed matches Some(j) ==> pending_ok(seq![j], self.top_code()),
                    decreases n - z,
                {
                    let ghost bz = *self;
                    self.emit(OpCode::PopRescue);
                    proof {
                        match type_check_failed {
                            Some(j) => lemma_pending_grows(seq![j], bz.top_code(), self.top_code()),
                            None => {},
                        }
                    }
                    z += 1;
                }
                let ghost b3 = *self;
                self.compile_branch(&clause.body, Ghost(*expr))?;
                let hj = self.emit_jump(OpCode::Jump(0));
                proof {
                    lemma_rescues_grow(begin_indices@, b2.top_code(), self.top_code());
                    lemma_pending_grows(handler_jumps@, b2.top_code(), self.top_code());
                    lemma_pending_grows(seq![jump_over_rescue], b2.top_code(), self.top_code());
                    match type_check_failed {
                        Some(j) => {
                            lemma_pending_grows(seq![j], b3.top_code(), self.top_code());
                        },
                        None => {},
                    }
                }
                handler_jumps.push(hj);
                if let Some(j) = type_check_failed {
                    let ghost b4 = *self;
                    assert(pending_ok(seq![j], self.top_code()));
                    assert(seq![j][0] == j);
                    self.patch_jump(j);
                    self.emit(OpCode::GetLocal(rescue_var_slots[i]));
                    self.emit(OpCode::Raise);
                    proof {
                        lemma_rescues_grow(begin_indices@, b4.top_code(), self.top_code());
                        lemma_pending_grows(handler_jumps@, b4.top_code(), self.top_code());
                        lemma_pending_grows(seq![jump_over_rescue], b4.top_code(), self.top_code());
                    }
                }
                i += 1;
            }
            assert(seq![jump_over_rescue][0] == jump_over_rescue);
            let ghost b5 = *self;
            self.patch_jump(jump_over_rescue);
            proof {
                lemma_pending_grows(handler_jumps@, b5.top_code(), self.top_code());
            }
            if else_body.len() > 0 {
                let ghost b6 = *self;
                self.emit(OpCode::Pop);
                self.compile_branch(else_body, Ghost(*expr))?;
                proof {
                    lemma_pending_grows(handler_jumps@, b6.top_code(), self.top_code());
                }
            }
            let mut k: usize = 0;
            while k < handler_jumps.len()
                invariant
                    k <= handler_jumps@.len(),
                    self.inv(),
                    Compiler::step(old(self), self, true),
                    pending_ok(handler_jumps@, self.top_code()),
                decreases handler_jumps@.len() - k,
            {
                let ghost b7 = *self;
                self.patch_jump(handler_jumps[k]);
                proof {
                    lemma_pending_grows(handler_jumps@, b7.top_code(), self.top_code());
                }
                k += 1;
            }
        }
        Ok(())
    }
}

fn last_of_exprs(v: &Vec<Expr>) -> (r: Option<&Expr>) {
    if v.len() == 0 {
        None
    } else {
        Some(&v[v.len() - 1])
    }
}


/// The method is of the asked kind (class or instance), abstract only where
/// that is allowed, and private where only private ones are asked for.
pub open spec fn method_selected(m: MethodDef, class_method: bool, abstract_ok: bool, private_only: bool) -> bool {
    m.class_method == class_method && (abstract_ok || !m.is_abstract) && (!private_only || m.private)
}

/// The names of the selected methods, in order.
pub open spec fn selected_method_names(ms: Seq<MethodDef>, class_method: bool, abstract_ok: bool, private_only: bool) -> Seq<Seq<char>>
    decreases ms.len(),
{
    if ms.len() == 0 {
        Seq::empty()
    } else {
        let rest = selected_method_names(ms.drop_last(), class_method, abstract_ok, private_only);
        if method_selected(ms.last(), class_method, abstract_ok, private_only) {
            rest.push(ms.last().name@)
        } else {
            rest
        }
    }
}

/// The names of the abstract instance methods, in order.
pub open spec fn abstract_method_names(ms: Seq<MethodDef>) -> Seq<Seq<char>>
    decreases ms.len(),
{
    if ms.len() == 0 {
        Seq::empty()
    } else {
        let rest = abstract_method_names(ms.drop_last());
        if !ms.last().class_method && ms.last().is_abstract {
            rest.push(ms.last().name@)
        } else {
            rest
        }
    }
}

fn method_names_where(methods: &Vec<MethodDef>, class_method: bool, abstract_ok: bool, private_only: bool) -> (r: Vec<String>)
    ensures
        r@.map_values(|s: String| s@) == selected_method_names(methods@, class_method, abstract_ok, private_only),
{
    let mut out: Vec<String> = Vec::new();
    let mut i: usize = 0;
    while i < methods.len()
        invariant
            i <= methods@.len(),
            out@.map_values(|s: String| s@) == selected_method_names(methods@.take(i as int), class_method, abstract_ok, private_only),
        decreases methods@.len() - i,
    {
        let m = &methods[i];
        proof {
            assert(methods@.take(i + 1).drop_last() =~= methods@.take(i as int));
            assert(methods@.take(i + 1).last() == methods@[i as int]);
        }
        if m.class_method == class_method && (abstract_ok || !m.is_abstract) && (!private_only || m.private) {
            let ghost before = out@;
            out.push(m.name.clone());
            proof {
                assert(out@.map_values(|s: String| s@) =~= before.map_values(|s: String| s@).push(m.name@));
            }
        }
        i += 1;
    }
    proof {
        assert(methods@.take(methods@.len() as int) =~= methods@);
    }
    out
}

fn field_default(f: &FieldDef) -> (r: Option<Constant>)
    ensures
        r == match f.default {
            Some(Expr::Literal(Value::Int(n))) => Some(Constant::Int(n)),
            Some(Expr::Literal(Value::Float(t))) => Some(Constant::Float(t)),
            Some(Expr::Literal(Value::Str(st))) => Some(Constant::Str(st)),
            _ => None,
        },
{
    match &f.default {
        Some(Expr::Literal(Value::Int(n))) => Some(Constant::Int(*n)),
        Some(Expr::Literal(Value::Float(t))) => Some(Constant::Float(t.clone())),
        Some(Expr::Literal(Value::Str(st))) => Some(Constant::Str(st.clone())),
        _ => None,
    }
}

impl Compiler {
    /// Compile one method into a closure on the stack; slot 0 is `self`.
    fn compile_method(&mut self, method: &MethodDef, line: u32, class_tvars: &Vec<String>, Ghost(parent): Ghost<Expr>) -> (res: Result<(), CompileError>)
        requires
            old(self).inv(),
            forall|j: int| 0 <= j < method.body@.len() ==> decreases_to!(parent => #[trigger] method.body@[j]),
        ensures
            Compiler::step(old(self), final(self), res is Ok),
            res is Ok ==> final(self).top_code().len() > old(self).top_code().len(),
        decreases parent, 1nat,
    {
        let ghost s0 = *self;
        self.push_fn(method.name.as_str(), method.params.len(), line);
        let ghost sp = *self;
        self.set_super_name(method.name.clone());
        let mut all_tvars = crate::typechecker::copy_strings_pub(class_tvars);
        let mut i: usize = 0;
        while i < method.type_params.len()
            invariant
                i <= method.type_params@.len(),
            decreases method.type_params@.len() - i,
        {
            all_tvars.push(method.type_params[i].clone());
            i += 1;
        }
        let rt = self.runtime_check(&method.return_type, &all_tvars);
        let pts = self.param_checks(&method.params, &all_tvars);
        self.set_types(rt, pts);
        let _ = self.push_local(String::from_str("self"));
        let mut i: usize = 0;
        while i < method.params.len()
            invariant
                i <= method.params@.len(),
                self.inv(),
                Compiler::step(&sp, self, true),
            decreases method.params@.len() - i,
        {
            let _ = self.push_local(method.params[i].name.clone());
            i += 1;
        }
        self.compile_body(&method.body, Ghost(parent))?;
        let ghost sb = *self;
        let func = self.pop_fn();
        proof {
            lemma_nested(s0, sp, sb, *self);
        }
        let fi = self.add_const(Constant::Function(func));
        self.emit(OpCode::Closure(fi));
        Ok(())
    }

    /// Compile a class: its class methods and concrete instance methods as
    /// closures, its nested classes and constants as values, then `DefClass`
    /// with the class's description; bound to a local (a global at the REPL's
    /// top level) when `bind`, else left on the stack for the enclosing class.
    fn compile_class(&mut self, expr: &Expr, bind: bool) -> (res: Result<(), CompileError>)
        requires
            old(self).inv(),
            expr is Class,
        ensures
            Compiler::step(old(self), final(self), res is Ok),
            res is Ok ==> final(self).top_code().len() > old(self).top_code().len(),
        decreases *expr, 3nat,
    {
        if let Expr::Class { name, .. } = expr {
            self.enclosing_class_stack.push(name.clone());
            let result = self.compile_class_body(expr, bind);
            let _ = self.enclosing_class_stack.pop();
            result
        } else {
            Ok(())
        }
    }

    fn compile_class_body(&mut self, expr: &Expr, bind: bool) -> (res: Result<(), CompileError>)
        requires
            old(self).inv(),
            expr is Class,
        ensures
            Compiler::step(old(self), final(self), res is Ok),
            res is Ok ==> final(self).top_code().len() > old(self).top_code().len(),
            res is Ok ==> exists|k: int|
                old(self).top_code().len() <= k < final(self).top_code().len() && #[trigger] final(self).top_code()[k] is DefClass,
            res is Ok ==> (*expr matches Expr::Class { nested, .. } && forall|k: int| 0 <= k < nested@.len() ==> #[trigger] nested@[k] is Class),
            plain_class_expr(*expr) ==> res is Ok && final(self).top_code().len() > old(self).top_code().len() && final(self).top_code()[old(self).top_code().len() as int] == OpCode::DefClass(old(self).states@.last().chunk.constants@.len() as usize),
        decreases *expr, 2nat,
    {
        if let Expr::Class { name, type_params, superclass, includes, is_module, is_abstract, fields, methods, nested, constants } = expr {
            let line = self.current_line();
            let mut i: usize = 0;
            while i < methods.len()
                invariant
                    *expr matches Expr::Class { methods: mm, nested: nn, constants: cc, .. } && mm == *methods && nn == *nested && cc == *constants,
                    i <= methods@.len(),
                    self.inv(),
                    *self == *old(self),
                decreases methods@.len() - i,
            {
                let m = &methods[i];
                if !m.class_method && m.is_abstract && !*is_abstract {
                    let e = msg(&["abstract method '", m.name.as_str(), "' is only allowed in an abstract class"]);
                    return Err(self.error(e));
                }
                i += 1;
            }
            proof {
                crate::typechecker::lemma_methods_below_pub(*expr, *methods);
            }
            let mut pass: usize = 0;
            while pass < 2
                invariant
                    *expr matches Expr::Class { methods: mm, nested: nn, constants: cc, .. } && mm == *methods && nn == *nested && cc == *constants,
                    pass <= 2,
                    self.inv(),
                    Compiler::step(old(self), self, true),
                    plain_class_expr(*expr) ==> *self == *old(self),
                    forall|a: int, b: int|
                        0 <= a < methods@.len() && 0 <= b < methods@[a].body@.len() ==> decreases_to!(*expr => #[trigger] methods@[a].body@[b]),
                decreases 2 - pass,
            {
                let mut i: usize = 0;
                while i < methods.len()
                    invariant
                        *expr matches Expr::Class { methods: mm, nested: nn, constants: cc, .. } && mm == *methods && nn == *nested && cc == *constants,
                        i <= methods@.len(),
                        pass < 2,
                        self.inv(),
                        Compiler::step(old(self), self, true),
                        plain_class_expr(*expr) ==> *self == *old(self),
                        forall|a: int, b: int|
                            0 <= a < methods@.len() && 0 <= b < methods@[a].body@.len() ==> decreases_to!(*expr => #[trigger] methods@[a].body@[b]),
                    decreases methods@.len() - i,
                {
                    let m = &methods[i];
                    let wanted = if pass == 0 {
                        m.class_method
                    } else {
                        !m.class_method && !m.is_abstract
                    };
                    if wanted {
                        proof {
                            assert forall|b: int| 0 <= b < m.body@.len() implies decreases_to!(*expr => #[trigger] m.body@[b]) by {
                                assert(decreases_to!(*expr => methods@[i as int].body@[b]));
                            }
                        }
                        self.compile_method(m, line, type_params, Ghost(*expr))?;
                    }
                    i += 1;
                }
                pass += 1;
            }
            let mut nested_class_names: Vec<String> = Vec::new();
            proof {
                crate::typechecker::lemma_exprs_below(*expr, *nested);
            }
            let mut i: usize = 0;
            while i < nested.len()
                invariant
                    *expr matches Expr::Class { methods: mm, nested: nn, constants: cc, .. } && mm == *methods && nn == *nested && cc == *constants,
                    i <= nested@.len(),
                    self.inv(),
                    Compiler::step(old(self), self, true),
                    plain_class_expr(*expr) ==> *self == *old(self),
                    forall|k: int| 0 <= k < nested@.len() ==> decreases_to!(*expr => #[trigger] nested@[k]),
                    forall|k: int| 0 <= k < i ==> #[trigger] nested@[k] is Class,
                decreases nested@.len() - i,
            {
                match &nested[i] {
                    Expr::Class { name: nname, .. } => {
                        nested_class_names.push(nname.clone());
                        assert(decreases_to!(*expr => nested@[i as int]));
                        self.compile_class(&nested[i], false)?;
                    },
                    _ => {
                        return Err(self.error(String::from_str("nested class body must be a class expression")));
                    },
                }
                i += 1;
            }
            proof {
                assert(decreases_to!(*expr => *constants));
                assert forall|k: int| 0 <= k < constants@.len() implies decreases_to!(*expr => #[trigger] constants@[k].1) by {
                    assert(decreases_to!(*constants => constants@));
                    assert(decreases_to!(constants@ => constants@[k]));
                    assert(decreases_to!(constants@[k] => constants@[k].1));
                }
            }
            let mut i: usize = 0;
            while i < constants.len()
                invariant
                    *expr matches Expr::Class { methods: mm, nested: nn, constants: cc, .. } && mm == *methods && nn == *nested && cc == *constants,
                    i <= constants@.len(),
                    self.inv(),
                    Compiler::step(old(self), self, true),
                    plain_class_expr(*expr) ==> *self == *old(self),
                    forall|k: int| 0 <= k < constants@.len() ==> decreases_to!(*expr => #[trigger] constants@[k].1),
                decreases constants@.len() - i,
            {
                nested_class_names.push(constants[i].0.clone());
                assert(decreases_to!(*expr => constants@[i as int].1));
                self.expr(&constants[i].1)?;
                i += 1;
            }
            let resolved_includes = resolve_include_names(&self.enclosing_class_stack, includes);
            let mut static_super: Option<String> = None;
            let mut superclass_dynamic = false;
            match superclass {
                None => {},
                Some(sup) => match &**sup {
                    Expr::Variable(sname) => {
                        static_super = Some(sname.clone());
                    },
                    _ => {
                        proof {
                            assert(decreases_to!(*expr => *superclass));
                            assert(decreases_to!(*superclass => *sup));
                        }
                        self.expr(sup)?;
                        superclass_dynamic = true;
                    },
                },
            }
            let mut field_names: Vec<String> = Vec::new();
            let mut field_defaults: Vec<Option<Constant>> = Vec::new();
            let mut i: usize = 0;
            while i < fields.len()
                invariant
                    *expr matches Expr::Class { methods: mm, nested: nn, constants: cc, .. } && mm == *methods && nn == *nested && cc == *constants,
                    i <= fields@.len(),
                decreases fields@.len() - i,
            {
                field_names.push(fields[i].name.clone());
                field_defaults.push(field_default(&fields[i]));
                i += 1;
            }
            let abstract_method_names = abstract_instance_names(methods);
            let desc = Constant::ClassDesc {
                name: name.clone(),
                superclass: static_super,
                superclass_dynamic,
                is_module: *is_module,
                is_abstract: *is_abstract,
                abstract_method_names,
                includes: resolved_includes,
                field_names,
                field_defaults,
                method_names: method_names_where(methods, false, false, false),
                private_methods: method_names_where(methods, false, false, true),
                class_method_names: method_names_where(methods, true, true, false),
                class_private_methods: method_names_where(methods, true, true, true),
                nested_class_names,
            };
            let desc_idx = self.add_const(desc);
            assert(plain_class_expr(*expr) ==> desc_idx == old(self).states@.last().chunk.constants@.len());
            let ghost kd = self.top_code().len();
            self.emit(OpCode::DefClass(desc_idx));
            assert(self.top_code()[kd as int] == OpCode::DefClass(desc_idx));
            if !bind {
                return Ok(());
            }
            if self.global_mode && self.states.len() == 1 {
                let ni = self.add_str(name.clone());
                self.emit(OpCode::SetGlobal(ni));
            } else {
                let _ = self.push_local(name.clone());
            }
            assert(self.top_code()[kd as int] == OpCode::DefClass(desc_idx));
        }
        Ok(())
    }

    fn compile_top(&mut self, exprs: &[Expr]) -> (res: Result<(), CompileError>)
        requires
            old(self).inv(),
        ensures
            Compiler::step(old(self), final(self), res is Ok),
            res is Ok ==> final(self).top_code().len() > 0 && final(self).top_code().last() == OpCode::Return,
            exprs@.len() == 0 ==> res is Ok && final(self).top_code() == old(self).top_code().push(OpCode::Nil).push(
                OpCode::Return,
            ),
            (forall|i: int| 0 <= i < exprs@.len() ==> pure_expr(#[trigger] exprs@[i])) ==> res is Ok && final(self).top_code()
                == old(self).top_code() + pure_program_code(exprs@, old(self).states@.last().chunk.constants@.len()) && final(self).states@.last().chunk.constants@ == old(self).states@.last().chunk.constants@ + program_constants(exprs@),
    {
        let n = exprs.len();
        if n == 0 {
            self.emit(OpCode::Nil);
            self.emit(OpCode::Return);
            return Ok(());
        }
        let mut i: usize = 0;
        while i < n - 1
            invariant
                i <= n - 1,
                n == exprs@.len(),
                self.inv(),
                Compiler::step(old(self), self, true),
                (forall|j: int| 0 <= j < exprs@.len() ==> pure_expr(#[trigger] exprs@[j])) ==> self.top_code() == old(self).top_code() + pure_stmts_code(exprs@.take(i as int), old(self).states@.last().chunk.constants@.len())
                    && self.states@.last().chunk.constants@ == old(self).states@.last().chunk.constants@ + program_constants(
                    exprs@.take(i as int),
                ),
            decreases n - 1 - i,
        {
            proof {
                assert(exprs@.take(i + 1).drop_last() =~= exprs@.take(i as int));
                assert(exprs@.take(i + 1).last() == exprs@[i as int]);
            }
            self.stmt(&exprs[i])?;
            i += 1;
        }
        proof {
            assert(exprs@.drop_last() =~= exprs@.take(n - 1));
        }
        let last = &exprs[n - 1];
        match last {
            Expr::Function { name, .. } => {
                self.expr(last)?;
                let idx = self.add_str(name.clone());
                self.emit(OpCode::Constant(idx));
                self.emit(OpCode::Return);
            },
            _ => {
                if !is_stmt_form(last) {
                    self.expr(last)?;
                    self.emit(OpCode::Return);
                } else {
                    self.stmt(last)?;
                    self.emit(OpCode::Nil);
                    self.emit(OpCode::Return);
                }
            },
        }
        Ok(())
    }

    fn compile_with(exprs: &[Expr], global_mode: bool, has_imports: bool) -> (res: Result<Rc<Function>, CompileError>)
        ensures
            (forall|i: int| 0 <= i < exprs@.len() ==> pure_expr(#[trigger] exprs@[i])) ==> (res matches Ok(f) && f.chunk.code@
                == pure_program_code(exprs@, 0) && f.chunk.constants@ == program_constants(exprs@)),
            res matches Ok(f) ==> compiled_program(*f),
            exprs@.len() == 0 ==> (res matches Ok(f) && f.chunk.code@ == seq![OpCode::Nil, OpCode::Return]),
    {
        let mut c = Compiler::new(global_mode, has_imports);
        c.collect_type_aliases(exprs);
        c.put_top(FunctionState::new("", 0, 0));
        c.compile_top(exprs)?;
        Ok(c.pop_fn())
    }

    /// Compile a program into its top-level function (arity 0, no name).
    /// The code never jumps outside itself, each instruction has its line,
    /// and it ends by returning.
    pub fn compile(exprs: &[Expr]) -> (res: Result<Rc<Function>, CompileError>)
        ensures
            (forall|i: int| 0 <= i < exprs@.len() ==> pure_expr(#[trigger] exprs@[i])) ==> (res matches Ok(f) && f.chunk.code@
                == pure_program_code(exprs@, 0) && f.chunk.constants@ == program_constants(exprs@)),
            res matches Ok(f) ==> compiled_program(*f),
            exprs@.len() == 0 ==> (res matches Ok(f) && f.chunk.code@ == seq![OpCode::Nil, OpCode::Return]),
    {
        let mut has_imports = false;
        let mut i: usize = 0;
        while i < exprs.len()
            invariant
                i <= exprs@.len(),
            decreases exprs@.len() - i,
        {
            if let Expr::Import { .. } = &exprs[i] {
                has_imports = true;
            }
            i += 1;
        }
        Compiler::compile_with(exprs, false, has_imports)
    }

    /// Compile a REPL entry: top-level variables and definitions become
    /// globals, so they persist from one entry to the next.
    pub fn compile_repl(exprs: &[Expr]) -> (res: Result<Rc<Function>, CompileError>)
        ensures
            (forall|i: int| 0 <= i < exprs@.len() ==> pure_expr(#[trigger] exprs@[i])) ==> (res matches Ok(f) && f.chunk.code@
                == pure_program_code(exprs@, 0) && f.chunk.constants@ == program_constants(exprs@)),
            res matches Ok(f) ==> compiled_program(*f),
            exprs@.len() == 0 ==> (res matches Ok(f) && f.chunk.code@ == seq![OpCode::Nil, OpCode::Return]),
    {
        Compiler::compile_with(exprs, true, false)
    }
}

fn abstract_instance_names(methods: &Vec<MethodDef>) -> (r: Vec<String>)
    ensures
        r@.map_values(|s: String| s@) == abstract_method_names(methods@),
{
    let mut out: Vec<String> = Vec::new();
    let mut i: usize = 0;
    while i < methods.len()
        invariant
            i <= methods@.len(),
            out@.map_values(|s: String| s@) == abstract_method_names(methods@.take(i as int)),
        decreases methods@.len() - i,
    {
        proof {
            assert(methods@.take(i + 1).drop_last() =~= methods@.take(i as int));
            assert(methods@.take(i + 1).last() == methods@[i as int]);
        }
        if !methods[i].class_method && methods[i].is_abstract {
            let ghost before = out@;
            out.push(methods[i].name.clone());
            proof {
                assert(out@.map_values(|s: String| s@) =~= before.map_values(|s: String| s@).push(methods@[i as int].name@));
            }
        }
        i += 1;
    }
    proof {
        assert(methods@.take(methods@.len() as int) =~= methods@);
    }
    out
}

/// Compile a program (see `Compiler::compile`).
pub fn compile(exprs: &[Expr]) -> (res: Result<Rc<Function>, CompileError>)
    ensures
        (forall|i: int| 0 <= i < exprs@.len() ==> pure_expr(#[trigger] exprs@[i])) ==> (res matches Ok(f) && f.chunk.code@
                == pure_program_code(exprs@, 0) && f.chunk.constants@ == program_constants(exprs@)),
        res matches Ok(f) ==> compiled_program(*f),
        exprs@.len() == 0 ==> (res matches Ok(f) && f.chunk.code@ == seq![OpCode::Nil, OpCode::Return]),
{
    Compiler::compile(exprs)
}

/// Compile a REPL entry (see `Compiler::compile_repl`).
pub fn compile_repl(exprs: &[Expr]) -> (res: Result<Rc<Function>, CompileError>)
    ensures
        (forall|i: int| 0 <= i < exprs@.len() ==> pure_expr(#[trigger] exprs@[i])) ==> (res matches Ok(f) && f.chunk.code@
                == pure_program_code(exprs@, 0) && f.chunk.constants@ == program_constants(exprs@)),
        res matches Ok(f) ==> compiled_program(*f),
        exprs@.len() == 0 ==> (res matches Ok(f) && f.chunk.code@ == seq![OpCode::Nil, OpCode::Return]),
{
    Compiler::compile_repl(exprs)
}

} // verus!
