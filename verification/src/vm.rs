//! Runtime values of the Sapphire virtual machine, the objects that live on
//! its garbage-collected heap, and the errors that native methods raise.
use vstd::prelude::*;

use crate::gc::{class_bound, GcHeap, GcRef};

verus! {

/// A runtime value.  Scalars are held inline; collections and objects are
/// references into the heap.  A `Float` is held as its IEEE-754 bit pattern.
#[derive(Debug, Clone)]
pub enum VmValue {
    Int(i64),
    Float(u64),
    Str(String),
    Bool(bool),
    Nil,
    List(GcRef),
    MapRef(GcRef),
    SetRef(GcRef),
    Range { from: i64, to: i64 },
    Instance { class_name: String, fields: GcRef },
    Class { name: String },
    Function(GcRef),
    Closure(GcRef),
    ClassObj(GcRef),
}

/// An error raised while running a native method.
#[derive(Debug, Clone)]
pub enum VmError {
    TypeError { message: String, line: u32 },
    Raised(VmValue),
}

/// How many arguments a native method accepts.
#[derive(Debug, Clone, Copy, PartialEq, Eq, Structural)]
pub struct NativeArity {
    pub min: usize,
    pub max: usize,
}

impl NativeArity {
    pub fn exactly(n: usize) -> (a: NativeArity)
        ensures
            a.min == n,
            a.max == n,
    {
        NativeArity { min: n, max: n }
    }

    pub fn at_least(n: usize) -> (a: NativeArity)
        ensures
            a.min == n,
            a.max == usize::MAX,
    {
        NativeArity { min: n, max: usize::MAX }
    }
}

/// The native implementations that can be bound to a class, one variant per
/// built-in method.
#[derive(Debug, Clone, Copy, PartialEq, Eq, Structural)]
pub enum NativeFn {
    ListAllQ,
    ListAnyQ,
    ListAppend,
    ListConcat,
    ListEmptyQ,
    ListFirst,
    ListFlatten,
    ListIncludeQ,
    ListJoin,
    ListLast,
    ListMax,
    ListMin,
    ListPop,
    ListPrepend,
    ListReverse,
    ListSize,
    ListSort,
    ListSum,
    ListToS,
    ListUniq,
    MapDelete,
    MapEmptyQ,
    MapGet,
    MapHasKeyQ,
    MapKeys,
    MapMerge,
    MapSet,
    MapSize,
    MapToS,
    MapValues,
    SetNew,
    SetAdd,
    SetDelete,
    SetDifference,
    SetDisjoint,
    SetEmpty,
    SetInclude,
    SetIntersection,
    SetSize,
    SetSubset,
    SetSuperset,
    SetToA,
    SetToS,
    SetUnion,
    StringBytes,
    StringChars,
    StringChomp,
    StringDowncase,
    StringEmptyQ,
    StringEndsWithQ,
    StringIncludeQ,
    StringLines,
    StringReplace,
    StringReplaceAll,
    StringReverse,
    StringSize,
    StringSlice,
    StringSplit,
    StringStartsWithQ,
    StringToF,
    StringToI,
    StringToS,
    StringTrim,
    StringUpcase,
    RangeFirst,
    RangeIncludeQ,
    RangeLast,
    RangeMax,
    RangeMin,
    RangeSize,
    RangeToA,
    RangeToS,
    IntPow,
    IntToF,
    IntToS,
    FloatCeil,
    FloatFloor,
    FloatInfinite,
    FloatNan,
    FloatRound,
    FloatSqrt,
    FloatToI,
    FloatToS,
    NilInspect,
    NilNilQ,
    NilToS,
    DirChildren,
    DirDelete,
    DirExistQ,
    DirMkdir,
    DirPwd,
    EnvAll,
    EnvDelete,
    EnvFetch,
    EnvGet,
    EnvSet,
    FileDelete,
    FileExistQ,
    FileFileQ,
    FileJoin,
    FileMtime,
    FileRead,
    FileRename,
    FileSize,
    FileWrite,
    IoPuts,
    IoPrint,
    IoGets,
    JsonParse,
    MathSin,
    MathCos,
    MathAsin,
    MathAtan,
}

/// A native method bound under a name on a class object.
#[derive(Debug, Clone)]
pub struct NativeMethod {
    pub name: String,
    pub arity: NativeArity,
    pub native: NativeFn,
}

/// A class object as native code sees it: its name and the native instance
/// and class methods bound on it, in binding order.
#[derive(Debug, Clone)]
pub struct ClassObject {
    pub name: String,
    pub methods: Vec<NativeMethod>,
    pub class_methods: Vec<NativeMethod>,
}

/// An object on the heap.  A `Map` holds its entries in insertion order;
/// a well-formed heap never holds two entries with the same key.
#[derive(Debug, Clone)]
pub enum HeapObject {
    List(Vec<VmValue>),
    MapObj(Vec<(String, VmValue)>),
    SetObj(Vec<VmValue>),
    Class(ClassObject),
    Fields(Vec<(String, VmValue)>),
}

/// The mathematical view of a heap object.
pub enum ObjView {
    List(Seq<VmValue>),
    MapObj(Seq<(String, VmValue)>),
    SetObj(Seq<VmValue>),
    Class { name: Seq<char>, methods: Seq<NativeMethod>, class_methods: Seq<NativeMethod> },
    Fields(Seq<(String, VmValue)>),
}

impl HeapObject {
    pub open spec fn view(self) -> ObjView {
        match self {
            HeapObject::List(v) => ObjView::List(v@),
            HeapObject::MapObj(v) => ObjView::MapObj(v@),
            HeapObject::SetObj(v) => ObjView::SetObj(v@),
            HeapObject::Class(c) => ObjView::Class {
                name: c.name@,
                methods: c.methods@,
                class_methods: c.class_methods@,
            },
            HeapObject::Fields(v) => ObjView::Fields(v@),
        }
    }
}

// ── Floats held as bit patterns ─────────────────────────────────────────────

pub open spec fn float_is_nan(b: u64) -> bool {
    (b & 0x7ff0_0000_0000_0000u64) == 0x7ff0_0000_0000_0000u64 && (b & 0x000f_ffff_ffff_ffffu64)
        != 0
}

pub open spec fn float_is_zero(b: u64) -> bool {
    (b & 0x7fff_ffff_ffff_ffffu64) == 0
}

/// IEEE-754 equality of two doubles given by their bit patterns: NaN equals
/// nothing, and the two zeros are equal.
pub open spec fn float_bits_eq(a: u64, b: u64) -> bool {
    !float_is_nan(a) && !float_is_nan(b) && (a == b || (float_is_zero(a) && float_is_zero(b)))
}

pub fn float_eq(a: u64, b: u64) -> (r: bool)
    ensures
        r == float_bits_eq(a, b),
{
    let a_nan = (a & 0x7ff0_0000_0000_0000u64) == 0x7ff0_0000_0000_0000u64 && (a
        & 0x000f_ffff_ffff_ffffu64) != 0;
    let b_nan = (b & 0x7ff0_0000_0000_0000u64) == 0x7ff0_0000_0000_0000u64 && (b
        & 0x000f_ffff_ffff_ffffu64) != 0;
    let both_zero = (a & 0x7fff_ffff_ffff_ffffu64) == 0 && (b & 0x7fff_ffff_ffff_ffffu64) == 0;
    !a_nan && !b_nan && (a == b || both_zero)
}

// ── Value equality ──────────────────────────────────────────────────────────

/// Equality of runtime values: scalars and ranges compare by value (strings
/// by their characters, floats by IEEE-754 equality); heap references compare
/// by identity; values of different kinds are never equal.
pub open spec fn value_eq(a: VmValue, b: VmValue) -> bool {
    match (a, b) {
        (VmValue::Int(x), VmValue::Int(y)) => x == y,
        (VmValue::Float(x), VmValue::Float(y)) => float_bits_eq(x, y),
        (VmValue::Str(x), VmValue::Str(y)) => x@ == y@,
        (VmValue::Bool(x), VmValue::Bool(y)) => x == y,
        (VmValue::Nil, VmValue::Nil) => true,
        (VmValue::List(x), VmValue::List(y)) => x == y,
        (VmValue::MapRef(x), VmValue::MapRef(y)) => x == y,
        (VmValue::SetRef(x), VmValue::SetRef(y)) => x == y,
        (VmValue::Range { from: f1, to: t1 }, VmValue::Range { from: f2, to: t2 }) => f1 == f2
            && t1 == t2,
        (
            VmValue::Instance { class_name: c1, fields: f1 },
            VmValue::Instance { class_name: c2, fields: f2 },
        ) => c1@ == c2@ && f1 == f2,
        (VmValue::Class { name: n1 }, VmValue::Class { name: n2 }) => n1@ == n2@,
        (VmValue::Function(x), VmValue::Function(y)) => x == y,
        (VmValue::Closure(x), VmValue::Closure(y)) => x == y,
        (VmValue::ClassObj(x), VmValue::ClassObj(y)) => x == y,
        _ => false,
    }
}

pub fn values_equal(a: &VmValue, b: &VmValue) -> (r: bool)
    ensures
        r == value_eq(*a, *b),
{
    match (a, b) {
        (VmValue::Int(x), VmValue::Int(y)) => *x == *y,
        (VmValue::Float(x), VmValue::Float(y)) => float_eq(*x, *y),
        (VmValue::Str(x), VmValue::Str(y)) => *x == *y,
        (VmValue::Bool(x), VmValue::Bool(y)) => *x == *y,
        (VmValue::Nil, VmValue::Nil) => true,
        (VmValue::List(x), VmValue::List(y)) => x.0 == y.0,
        (VmValue::MapRef(x), VmValue::MapRef(y)) => x.0 == y.0,
        (VmValue::SetRef(x), VmValue::SetRef(y)) => x.0 == y.0,
        (VmValue::Range { from: f1, to: t1 }, VmValue::Range { from: f2, to: t2 }) => *f1 == *f2
            && *t1 == *t2,
        (
            VmValue::Instance { class_name: c1, fields: f1 },
            VmValue::Instance { class_name: c2, fields: f2 },
        ) => *c1 == *c2 && f1.0 == f2.0,
        (VmValue::Class { name: n1 }, VmValue::Class { name: n2 }) => *n1 == *n2,
        (VmValue::Function(x), VmValue::Function(y)) => x.0 == y.0,
        (VmValue::Closure(x), VmValue::Closure(y)) => x.0 == y.0,
        (VmValue::ClassObj(x), VmValue::ClassObj(y)) => x.0 == y.0,
        _ => false,
    }
}

/// Whether some element of `s` equals `v`.
pub open spec fn seq_has_value(s: Seq<VmValue>, v: VmValue) -> bool {
    exists|i: int| 0 <= i < s.len() && value_eq(#[trigger] s[i], v)
}

pub fn contains_value(items: &Vec<VmValue>, v: &VmValue) -> (r: bool)
    ensures
        r == seq_has_value(items@, *v),
{
    let mut i: usize = 0;
    while i < items.len()
        invariant
            i <= items.len(),
            forall|j: int| 0 <= j < i ==> !value_eq(#[trigger] items@[j], *v),
        decreases items.len() - i,
    {
        if values_equal(&items[i], v) {
            return true;
        }
        i += 1;
    }
    false
}

/// Index of the first element of `items` equal to `v`.
pub fn position_of_value(items: &Vec<VmValue>, v: &VmValue) -> (r: Option<usize>)
    ensures
        match r {
            Some(i) => i < items@.len() && value_eq(items@[i as int], *v) && forall|j: int|
                0 <= j < i ==> !value_eq(#[trigger] items@[j], *v),
            None => !seq_has_value(items@, *v),
        },
{
    let mut i: usize = 0;
    while i < items.len()
        invariant
            i <= items.len(),
            forall|j: int| 0 <= j < i ==> !value_eq(#[trigger] items@[j], *v),
        decreases items.len() - i,
    {
        if values_equal(&items[i], v) {
            return Some(i);
        }
        i += 1;
    }
    None
}

impl VmValue {
    /// A copy of this value (strings are copied; heap references are shared).
    pub fn copy(&self) -> (r: VmValue)
        ensures
            r == *self,
    {
        match self {
            VmValue::Int(n) => VmValue::Int(*n),
            VmValue::Float(b) => VmValue::Float(*b),
            VmValue::Str(s) => VmValue::Str(s.clone()),
            VmValue::Bool(b) => VmValue::Bool(*b),
            VmValue::Nil => VmValue::Nil,
            VmValue::List(r) => VmValue::List(*r),
            VmValue::MapRef(r) => VmValue::MapRef(*r),
            VmValue::SetRef(r) => VmValue::SetRef(*r),
            VmValue::Range { from, to } => VmValue::Range { from: *from, to: *to },
            VmValue::Instance { class_name, fields } => VmValue::Instance {
                class_name: class_name.clone(),
                fields: *fields,
            },
            VmValue::Class { name } => VmValue::Class { name: name.clone() },
            VmValue::Function(r) => VmValue::Function(*r),
            VmValue::Closure(r) => VmValue::Closure(*r),
            VmValue::ClassObj(r) => VmValue::ClassObj(*r),
        }
    }
}

/// A copy of a sequence of values.
pub fn copy_values(items: &Vec<VmValue>) -> (r: Vec<VmValue>)
    ensures
        r@ == items@,
{
    let mut out: Vec<VmValue> = Vec::new();
    let mut i: usize = 0;
    while i < items.len()
        invariant
            i <= items.len(),
            out@ == items@.take(i as int),
        decreases items.len() - i,
    {
        out.push(items[i].copy());
        i += 1;
        assert(out@ =~= items@.take(i as int));
    }
    assert(items@.take(items.len() as int) =~= items@);
    out
}

/// A `TypeError` carrying `message` and the source line.
pub fn type_error(message: &str, line: u32) -> (e: VmError)
    ensures
        e == (VmError::TypeError { message: e->message, line }),
        e->message@ == message@,
{
    VmError::TypeError { message: String::from_str(message), line }
}

/// The error a native method returns: a `TypeError` with this message and line.
pub open spec fn is_type_error(e: VmError, message: Seq<char>, line: u32) -> bool {
    e matches VmError::TypeError { message: m, line: l } && m@ == message && l == line
}


// ── Binding native methods on class objects ─────────────────────────────────

/// What a binding records: the method's name, arity and implementation.
pub open spec fn method_entry(m: NativeMethod) -> (Seq<char>, NativeArity, NativeFn) {
    (m.name@, m.arity, m.native)
}

/// The bindings of a sequence of methods, in order.
pub open spec fn method_entries(ms: Seq<NativeMethod>) -> Seq<(Seq<char>, NativeArity, NativeFn)> {
    ms.map_values(|m: NativeMethod| method_entry(m))
}

/// `after` is the class object `before` with `entries` bound on it, in order:
/// as class methods when `on_class`, else as instance methods.
pub open spec fn binds_all(
    before: ObjView,
    after: ObjView,
    on_class: bool,
    entries: Seq<(Seq<char>, NativeArity, NativeFn)>,
) -> bool {
    &&& before matches ObjView::Class { name: n0, methods: m0, class_methods: c0 }
    &&& after matches ObjView::Class { name: n1, methods: m1, class_methods: c1 }
    &&& n1 == n0
    &&& if on_class {
        m1 == m0 && method_entries(c1) == method_entries(c0) + entries
    } else {
        c1 == c0 && method_entries(m1) == method_entries(m0) + entries
    }
}

/// The method that the last binding of `name` in `ms` names: a later binding
/// of a name overrides an earlier one.
pub open spec fn lookup_method(ms: Seq<(Seq<char>, NativeArity, NativeFn)>, name: Seq<char>) -> Option<
    (NativeArity, NativeFn),
>
    decreases ms.len(),
{
    if ms.len() == 0 {
        None
    } else if ms.last().0 == name {
        Some((ms.last().1, ms.last().2))
    } else {
        lookup_method(ms.drop_last(), name)
    }
}

/// A native method record.
pub fn native_method(name: &str, arity: NativeArity, native: NativeFn) -> (m: NativeMethod)
    ensures
        method_entry(m) == (name@, arity, native),
{
    NativeMethod { name: String::from_str(name), arity, native }
}

/// Bind `native` as the instance method `name` of the class in `class_ref`.
pub fn define_native_method(
    heap: &mut GcHeap<HeapObject>,
    class_ref: GcRef,
    name: &str,
    arity: NativeArity,
    native: NativeFn,
)
    requires
        old(heap).is_class(class_ref),
        old(heap).wf(),
    ensures
        final(heap)@ == old(heap)@.update(
            class_ref.0 as int,
            final(heap)@[class_ref.0 as int],
        ),
        binds_all(
            old(heap)@[class_ref.0 as int],
            final(heap)@[class_ref.0 as int],
            false,
            seq![(name@, arity, native)],
        ),
        final(heap).wf(),
{
    let m = native_method(name, arity, native);
    let ghost before = heap@[class_ref.0 as int];
    heap.class_bind(class_ref, m, false);
    proof {
        let after = heap@[class_ref.0 as int];
        assert(method_entries(after->Class_methods) =~= method_entries(before->Class_methods)
            + seq![(name@, arity, native)]);
    }
}

/// Bind `native` as the class method `name` of the class in `class_ref`.
pub fn define_native_class_method(
    heap: &mut GcHeap<HeapObject>,
    class_ref: GcRef,
    name: &str,
    arity: NativeArity,
    native: NativeFn,
)
    requires
        old(heap).is_class(class_ref),
        old(heap).wf(),
    ensures
        final(heap)@ == old(heap)@.update(
            class_ref.0 as int,
            final(heap)@[class_ref.0 as int],
        ),
        binds_all(
            old(heap)@[class_ref.0 as int],
            final(heap)@[class_ref.0 as int],
            true,
            seq![(name@, arity, native)],
        ),
        final(heap).wf(),
{
    let m = native_method(name, arity, native);
    let ghost before = heap@[class_ref.0 as int];
    heap.class_bind(class_ref, m, true);
    proof {
        let after = heap@[class_ref.0 as int];
        assert(method_entries(after->Class_class_methods) =~= method_entries(
            before->Class_class_methods,
        ) + seq![(name@, arity, native)]);
    }
}

/// Bind every method of `table`, in order, on the class in `class_ref`.
pub fn define_native_table(
    heap: &mut GcHeap<HeapObject>,
    class_ref: GcRef,
    table: Vec<NativeMethod>,
    on_class: bool,
)
    requires
        old(heap).is_class(class_ref),
        old(heap).wf(),
    ensures
        final(heap)@ == old(heap)@.update(
            class_ref.0 as int,
            final(heap)@[class_ref.0 as int],
        ),
        binds_all(
            old(heap)@[class_ref.0 as int],
            final(heap)@[class_ref.0 as int],
            on_class,
            method_entries(table@),
        ),
        final(heap).wf(),
{
    let ghost h0 = heap@;
    let ghost r = class_ref.0 as int;
    let mut i: usize = 0;
    proof {
        assert(method_entries(table@.take(0)) =~= Seq::empty());
        let o = h0[r];
        assert(method_entries(o->Class_methods) + Seq::empty() =~= method_entries(o->Class_methods));
        assert(method_entries(o->Class_class_methods) + Seq::empty() =~= method_entries(o->Class_class_methods));
        assert(h0 =~= h0.update(r, h0[r]));
    }
    while i < table.len()
        invariant
            i <= table@.len(),
            r == class_ref.0,
            heap.wf(),
            heap.is_class(class_ref),
            heap@ == h0.update(r, heap@[r]),
            h0[r] is Class,
            r < h0.len(),
            binds_all(h0[r], heap@[r], on_class, method_entries(table@.take(i as int))),
        decreases table@.len() - i,
    {
        let m = table[i].clone_method();
        let ghost before = heap@;
        heap.class_bind(class_ref, m, on_class);
        proof {
            let t0 = method_entries(table@.take(i as int));
            let t1 = method_entries(table@.take(i + 1));
            assert(t1 =~= t0.push(method_entry(table@[i as int])));
            let a = heap@[r];
            let b = before[r];
            if on_class {
                assert(method_entries(a->Class_class_methods) =~= method_entries(b->Class_class_methods).push(method_entry(m)));
            } else {
                assert(method_entries(a->Class_methods) =~= method_entries(b->Class_methods).push(method_entry(m)));
            }
            assert(heap@ =~= h0.update(r, heap@[r]));
        }
        i += 1;
    }
    assert(table@.take(table@.len() as int) =~= table@);
}

impl NativeMethod {
    /// A copy of this method record.
    pub fn clone_method(&self) -> (m: NativeMethod)
        ensures
            method_entry(m) == method_entry(*self),
    {
        NativeMethod { name: self.name.clone(), arity: self.arity, native: self.native }
    }
}

} // verus!
