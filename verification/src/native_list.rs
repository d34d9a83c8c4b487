//! Native methods of `List`.
use vstd::prelude::*;

use crate::gc::{GcHeap, GcRef};
use crate::vm::{
    contains_value, copy_values, is_type_error, seq_has_value, type_error, HeapObject, ObjView,
    VmError, VmValue,
};

use crate::vm::{binds_all, define_native_table, method_entries, native_method, NativeArity, NativeFn, NativeMethod};
verus! {

/// The heap reference held by a `List` receiver.
pub open spec fn list_ref(recv: VmValue) -> GcRef {
    recv->List_0
}

/// What every `List` native expects: a well-formed heap and a receiver that
/// is a list on it.
pub open spec fn list_recv_ok(heap: &GcHeap<HeapObject>, recv: VmValue) -> bool {
    heap.wf() && recv is List && heap.is_list(list_ref(recv))
}

fn list_r(recv: &VmValue) -> (r: GcRef)
    requires
        recv is List,
    ensures
        r == list_ref(*recv),
{
    match recv {
        VmValue::List(r) => *r,
        _ => vstd::pervasive::unreached(),
    }
}

/// `v` and every list reachable from it bottom out within `depth` levels of
/// nesting.
pub open spec fn nested_within(heap: &GcHeap<HeapObject>, v: VmValue, depth: nat) -> bool
    decreases depth,
{
    match v {
        VmValue::List(r) => depth > 0 && heap.is_list(r) && forall|i: int|
            0 <= i < heap.list(r).len() ==> nested_within(heap, #[trigger] heap.list(r)[i], (depth - 1) as nat),
        _ => true,
    }
}

/// The flattening of the elements `items`, each at most `depth` deep.
pub open spec fn flatten_seq(heap: &GcHeap<HeapObject>, items: Seq<VmValue>, depth: nat) -> Seq<VmValue>
    decreases depth, items.len(),
{
    if items.len() == 0 {
        Seq::empty()
    } else {
        flatten_seq(heap, items.drop_last(), depth) + flatten_value_spec(heap, items.last(), depth)
    }
}

/// A non-list is its own flattening; a list flattens to the concatenation of
/// the flattenings of its elements.
pub open spec fn flatten_value_spec(heap: &GcHeap<HeapObject>, v: VmValue, depth: nat) -> Seq<VmValue>
    decreases depth, 0nat,
{
    match v {
        VmValue::List(r) => if depth > 0 {
            flatten_seq(heap, heap.list(r), (depth - 1) as nat)
        } else {
            Seq::empty()
        },
        _ => seq![v],
    }
}

/// A nesting bound for the receiver of `flatten`.
pub open spec fn flatten_depth(heap: &GcHeap<HeapObject>, recv: VmValue) -> nat {
    choose|d: nat| nested_within(heap, recv, d)
}

fn flatten_value(heap: &GcHeap<HeapObject>, v: &VmValue, Ghost(depth): Ghost<nat>) -> (out: Vec<VmValue>)
    requires
        nested_within(heap, *v, depth),
    ensures
        out@ == flatten_value_spec(heap, *v, depth),
    decreases depth, 1nat,
{
    match v {
        VmValue::List(r) => {
            let items = heap.get_list(*r);
            flatten_items(heap, items, Ghost((depth - 1) as nat))
        },
        other => {
            let mut out = Vec::new();
            out.push(other.copy());
            assert(out@ =~= seq![*v]);
            out
        },
    }
}

fn flatten_items(heap: &GcHeap<HeapObject>, items: &Vec<VmValue>, Ghost(depth): Ghost<nat>) -> (out: Vec<VmValue>)
    requires
        forall|i: int| 0 <= i < items@.len() ==> nested_within(heap, #[trigger] items@[i], depth),
    ensures
        out@ == flatten_seq(heap, items@, depth),
    decreases depth, 2nat,
{
    let mut out: Vec<VmValue> = Vec::new();
    let mut i: usize = 0;
    while i < items.len()
        invariant
            i <= items.len(),
            forall|k: int| 0 <= k < items@.len() ==> nested_within(heap, #[trigger] items@[k], depth),
            out@ == flatten_seq(heap, items@.take(i as int), depth),
        decreases items.len() - i,
    {
        let mut part = flatten_value(heap, &items[i], Ghost(depth));
        let ghost p = part@;
        out.append(&mut part);
        assert(items@.take(i + 1).drop_last() =~= items@.take(i as int));
        i += 1;
        assert(out@ =~= flatten_seq(heap, items@.take(i as int), depth));
    }
    assert(items@.take(items.len() as int) =~= items@);
    out
}

pub fn list_all_q(
    _heap: &mut GcHeap<HeapObject>,
    _recv: &VmValue,
    _args: &[VmValue],
    line: u32,
) -> (res: Result<VmValue, VmError>)
    ensures
        res matches Err(e) && is_type_error(e, "all? requires a block"@, line),
        *final(_heap) == *old(_heap),
{
    Err(type_error("all? requires a block", line))
}

pub fn list_any_q(
    _heap: &mut GcHeap<HeapObject>,
    _recv: &VmValue,
    _args: &[VmValue],
    line: u32,
) -> (res: Result<VmValue, VmError>)
    ensures
        res matches Err(e) && is_type_error(e, "any? requires a block"@, line),
        *final(_heap) == *old(_heap),
{
    Err(type_error("any? requires a block", line))
}

/// Appends the argument in place; answers the receiver.
pub fn list_append(
    heap: &mut GcHeap<HeapObject>,
    recv: &VmValue,
    args: &[VmValue],
    _line: u32,
) -> (res: Result<VmValue, VmError>)
    requires
        list_recv_ok(old(heap), *recv),
        args@.len() >= 1,
    ensures
        res == Ok::<VmValue, VmError>(*recv),
        final(heap)@ == old(heap)@.update(
            list_ref(*recv).0 as int,
            ObjView::List(old(heap).list(list_ref(*recv)).push(args@[0])),
        ),
        final(heap).wf(),
{
    let r = list_r(recv);
    heap.list_push(r, args[0].copy());
    Ok(recv.copy())
}

/// Appends the elements of another list in place; answers the receiver.
pub fn list_concat(
    heap: &mut GcHeap<HeapObject>,
    recv: &VmValue,
    args: &[VmValue],
    line: u32,
) -> (res: Result<VmValue, VmError>)
    requires
        list_recv_ok(old(heap), *recv),
        args@.len() >= 1,
        args@[0] matches VmValue::List(o) ==> old(heap).is_list(o),
    ensures
        final(heap).wf(),
        match args@[0] {
            VmValue::List(o) => res == Ok::<VmValue, VmError>(*recv) && final(heap)@
                == old(heap)@.update(
                list_ref(*recv).0 as int,
                ObjView::List(old(heap).list(list_ref(*recv)) + old(heap).list(o)),
            ),
            _ => res matches Err(e) && is_type_error(e, "concat expects a List"@, line)
                && *final(heap) == *old(heap),
        },
{
    let r = list_r(recv);
    match &args[0] {
        VmValue::List(other_r) => {
            let other_items = copy_values(heap.get_list(*other_r));
            heap.list_extend(r, other_items);
            Ok(recv.copy())
        },
        _ => Err(type_error("concat expects a List", line)),
    }
}

pub fn list_empty_q(
    heap: &mut GcHeap<HeapObject>,
    recv: &VmValue,
    _args: &[VmValue],
    _line: u32,
) -> (res: Result<VmValue, VmError>)
    requires
        list_recv_ok(old(heap), *recv),
    ensures
        res == Ok::<VmValue, VmError>(VmValue::Bool(old(heap).list(list_ref(*recv)).len() == 0)),
        *final(heap) == *old(heap),
{
    let r = list_r(recv);
    Ok(VmValue::Bool(heap.get_list(r).len() == 0))
}

pub fn list_first(
    heap: &mut GcHeap<HeapObject>,
    recv: &VmValue,
    _args: &[VmValue],
    _line: u32,
) -> (res: Result<VmValue, VmError>)
    requires
        list_recv_ok(old(heap), *recv),
    ensures
        res == Ok::<VmValue, VmError>(
            if old(heap).list(list_ref(*recv)).len() > 0 {
                old(heap).list(list_ref(*recv))[0]
            } else {
                VmValue::Nil
            },
        ),
        *final(heap) == *old(heap),
{
    let r = list_r(recv);
    let v = heap.get_list(r);
    if v.len() > 0 {
        Ok(v[0].copy())
    } else {
        Ok(VmValue::Nil)
    }
}

/// A new list holding the non-list values reachable from the receiver, in
/// depth-first order.
pub fn list_flatten(
    heap: &mut GcHeap<HeapObject>,
    recv: &VmValue,
    _args: &[VmValue],
    _line: u32,
) -> (res: Result<VmValue, VmError>)
    requires
        list_recv_ok(old(heap), *recv),
        exists|d: nat| nested_within(old(heap), *recv, d),
    ensures
        res == Ok::<VmValue, VmError>(VmValue::List(GcRef(old(heap)@.len() as usize))),
        final(heap)@ == old(heap)@.push(
            ObjView::List(flatten_value_spec(old(heap), *recv, flatten_depth(old(heap), *recv))),
        ),
        final(heap).wf(),
{
    let ghost d = flatten_depth(heap, *recv);
    let v = flatten_value(heap, recv, Ghost(d));
    let r = heap.allocate(HeapObject::List(v));
    Ok(VmValue::List(r))
}

pub fn list_include_q(
    heap: &mut GcHeap<HeapObject>,
    recv: &VmValue,
    args: &[VmValue],
    _line: u32,
) -> (res: Result<VmValue, VmError>)
    requires
        list_recv_ok(old(heap), *recv),
        args@.len() >= 1,
    ensures
        res == Ok::<VmValue, VmError>(
            VmValue::Bool(seq_has_value(old(heap).list(list_ref(*recv)), args@[0])),
        ),
        *final(heap) == *old(heap),
{
    let r = list_r(recv);
    Ok(VmValue::Bool(contains_value(heap.get_list(r), &args[0])))
}

pub fn list_last(
    heap: &mut GcHeap<HeapObject>,
    recv: &VmValue,
    _args: &[VmValue],
    _line: u32,
) -> (res: Result<VmValue, VmError>)
    requires
        list_recv_ok(old(heap), *recv),
    ensures
        res == Ok::<VmValue, VmError>(
            if old(heap).list(list_ref(*recv)).len() > 0 {
                old(heap).list(list_ref(*recv)).last()
            } else {
                VmValue::Nil
            },
        ),
        *final(heap) == *old(heap),
{
    let r = list_r(recv);
    let v = heap.get_list(r);
    if v.len() > 0 {
        Ok(v[v.len() - 1].copy())
    } else {
        Ok(VmValue::Nil)
    }
}

/// Removes and answers the last element (`nil` on an empty list).
pub fn list_pop(
    heap: &mut GcHeap<HeapObject>,
    recv: &VmValue,
    _args: &[VmValue],
    _line: u32,
) -> (res: Result<VmValue, VmError>)
    requires
        list_recv_ok(old(heap), *recv),
    ensures
        final(heap).wf(),
        old(heap).list(list_ref(*recv)).len() == 0 ==> res == Ok::<VmValue, VmError>(VmValue::Nil)
            && final(heap)@ == old(heap)@,
        old(heap).list(list_ref(*recv)).len() > 0 ==> res == Ok::<VmValue, VmError>(
            old(heap).list(list_ref(*recv)).last(),
        ) && final(heap)@ == old(heap)@.update(
            list_ref(*recv).0 as int,
            ObjView::List(old(heap).list(list_ref(*recv)).drop_last()),
        ),
{
    let r = list_r(recv);
    match heap.list_pop(r) {
        Some(v) => Ok(v),
        None => Ok(VmValue::Nil),
    }
}

/// Inserts the argument at the front in place; answers the receiver.
pub fn list_prepend(
    heap: &mut GcHeap<HeapObject>,
    recv: &VmValue,
    args: &[VmValue],
    _line: u32,
) -> (res: Result<VmValue, VmError>)
    requires
        list_recv_ok(old(heap), *recv),
        args@.len() >= 1,
    ensures
        res == Ok::<VmValue, VmError>(*recv),
        final(heap)@ == old(heap)@.update(
            list_ref(*recv).0 as int,
            ObjView::List(seq![args@[0]] + old(heap).list(list_ref(*recv))),
        ),
        final(heap).wf(),
{
    let r = list_r(recv);
    heap.list_push_front(r, args[0].copy());
    Ok(recv.copy())
}

/// A new list with the elements in reverse order.
pub fn list_reverse(
    heap: &mut GcHeap<HeapObject>,
    recv: &VmValue,
    _args: &[VmValue],
    _line: u32,
) -> (res: Result<VmValue, VmError>)
    requires
        list_recv_ok(old(heap), *recv),
    ensures
        res == Ok::<VmValue, VmError>(VmValue::List(GcRef(old(heap)@.len() as usize))),
        final(heap)@ == old(heap)@.push(ObjView::List(old(heap).list(list_ref(*recv)).reverse())),
        final(heap).wf(),
{
    let r = list_r(recv);
    let items = heap.get_list(r);
    let mut v: Vec<VmValue> = Vec::new();
    let mut i = items.len();
    while i > 0
        invariant
            i <= items.len(),
            v@ == items@.skip(i as int).reverse(),
        decreases i,
    {
        i -= 1;
        v.push(items[i].copy());
        assert(v@ =~= items@.skip(i as int).reverse());
    }
    assert(items@.skip(0) =~= items@);
    let nr = heap.allocate(HeapObject::List(v));
    Ok(VmValue::List(nr))
}

pub fn list_size(
    heap: &mut GcHeap<HeapObject>,
    recv: &VmValue,
    _args: &[VmValue],
    _line: u32,
) -> (res: Result<VmValue, VmError>)
    requires
        list_recv_ok(old(heap), *recv),
    ensures
        res == Ok::<VmValue, VmError>(
            VmValue::Int(old(heap).list(list_ref(*recv)).len() as i64),
        ),
        *final(heap) == *old(heap),
{
    let r = list_r(recv);
    Ok(VmValue::Int(heap.get_list(r).len() as i64))
}

/// The first occurrences of the values of `s`, in order.
pub open spec fn dedup_seq(s: Seq<VmValue>) -> Seq<VmValue>
    decreases s.len(),
{
    if s.len() == 0 {
        Seq::empty()
    } else {
        let d = dedup_seq(s.drop_last());
        if seq_has_value(d, s.last()) {
            d
        } else {
            d.push(s.last())
        }
    }
}

/// Keep the first occurrence of each value, preserving order.
pub fn dedup_values(items: &Vec<VmValue>) -> (out: Vec<VmValue>)
    ensures
        out@ == dedup_seq(items@),
{
    let mut seen: Vec<VmValue> = Vec::new();
    let mut i: usize = 0;
    while i < items.len()
        invariant
            i <= items.len(),
            seen@ == dedup_seq(items@.take(i as int)),
        decreases items.len() - i,
    {
        assert(items@.take(i + 1).drop_last() =~= items@.take(i as int));
        if !contains_value(&seen, &items[i]) {
            seen.push(items[i].copy());
        }
        i += 1;
    }
    assert(items@.take(items.len() as int) =~= items@);
    seen
}

/// A new list holding the first occurrence of each element, in order.
pub fn list_uniq(
    heap: &mut GcHeap<HeapObject>,
    recv: &VmValue,
    _args: &[VmValue],
    _line: u32,
) -> (res: Result<VmValue, VmError>)
    requires
        list_recv_ok(old(heap), *recv),
    ensures
        res == Ok::<VmValue, VmError>(VmValue::List(GcRef(old(heap)@.len() as usize))),
        final(heap)@ == old(heap)@.push(ObjView::List(dedup_seq(old(heap).list(list_ref(*recv))))),
        final(heap).wf(),
{
    let r = list_r(recv);
    let seen = dedup_values(heap.get_list(r));
    let nr = heap.allocate(HeapObject::List(seen));
    Ok(VmValue::List(nr))
}


/// The instance methods that `register_methods` binds on the `List` class, in binding order.
pub open spec fn list_methods() -> Seq<(Seq<char>, NativeArity, NativeFn)> {
    seq![
        ("all?"@, NativeArity { min: 0, max: 0 }, NativeFn::ListAllQ),
        ("any?"@, NativeArity { min: 0, max: 0 }, NativeFn::ListAnyQ),
        ("append"@, NativeArity { min: 1, max: 1 }, NativeFn::ListAppend),
        ("concat"@, NativeArity { min: 1, max: 1 }, NativeFn::ListConcat),
        ("empty?"@, NativeArity { min: 0, max: 0 }, NativeFn::ListEmptyQ),
        ("first"@, NativeArity { min: 0, max: 0 }, NativeFn::ListFirst),
        ("flatten"@, NativeArity { min: 0, max: 0 }, NativeFn::ListFlatten),
        ("include?"@, NativeArity { min: 1, max: 1 }, NativeFn::ListIncludeQ),
        ("join"@, NativeArity { min: 0, max: usize::MAX }, NativeFn::ListJoin),
        ("last"@, NativeArity { min: 0, max: 0 }, NativeFn::ListLast),
        ("max"@, NativeArity { min: 0, max: 0 }, NativeFn::ListMax),
        ("min"@, NativeArity { min: 0, max: 0 }, NativeFn::ListMin),
        ("pop"@, NativeArity { min: 0, max: 0 }, NativeFn::ListPop),
        ("prepend"@, NativeArity { min: 1, max: 1 }, NativeFn::ListPrepend),
        ("reverse"@, NativeArity { min: 0, max: 0 }, NativeFn::ListReverse),
        ("size"@, NativeArity { min: 0, max: 0 }, NativeFn::ListSize),
        ("sort"@, NativeArity { min: 0, max: 0 }, NativeFn::ListSort),
        ("sum"@, NativeArity { min: 0, max: 0 }, NativeFn::ListSum),
        ("to_s"@, NativeArity { min: 0, max: 0 }, NativeFn::ListToS),
        ("uniq"@, NativeArity { min: 0, max: 0 }, NativeFn::ListUniq),
    ]
}

/// Bind the native instance methods of `List` on the class object in `class_ref`.
pub fn register_methods(heap: &mut GcHeap<HeapObject>, class_ref: GcRef)
    requires
        old(heap).is_class(class_ref),
        old(heap).wf(),
    ensures
        final(heap)@ == old(heap)@.update(class_ref.0 as int, final(heap)@[class_ref.0 as int]),
        binds_all(
            old(heap)@[class_ref.0 as int],
            final(heap)@[class_ref.0 as int],
            false,
            list_methods(),
        ),
        final(heap).wf(),
{
    let mut table: Vec<NativeMethod> = Vec::new();
    table.push(native_method("all?", NativeArity::exactly(0), NativeFn::ListAllQ));
    table.push(native_method("any?", NativeArity::exactly(0), NativeFn::ListAnyQ));
    table.push(native_method("append", NativeArity::exactly(1), NativeFn::ListAppend));
    table.push(native_method("concat", NativeArity::exactly(1), NativeFn::ListConcat));
    table.push(native_method("empty?", NativeArity::exactly(0), NativeFn::ListEmptyQ));
    table.push(native_method("first", NativeArity::exactly(0), NativeFn::ListFirst));
    table.push(native_method("flatten", NativeArity::exactly(0), NativeFn::ListFlatten));
    table.push(native_method("include?", NativeArity::exactly(1), NativeFn::ListIncludeQ));
    table.push(native_method("join", NativeArity::at_least(0), NativeFn::ListJoin));
    table.push(native_method("last", NativeArity::exactly(0), NativeFn::ListLast));
    table.push(native_method("max", NativeArity::exactly(0), NativeFn::ListMax));
    table.push(native_method("min", NativeArity::exactly(0), NativeFn::ListMin));
    table.push(native_method("pop", NativeArity::exactly(0), NativeFn::ListPop));
    table.push(native_method("prepend", NativeArity::exactly(1), NativeFn::ListPrepend));
    table.push(native_method("reverse", NativeArity::exactly(0), NativeFn::ListReverse));
    table.push(native_method("size", NativeArity::exactly(0), NativeFn::ListSize));
    table.push(native_method("sort", NativeArity::exactly(0), NativeFn::ListSort));
    table.push(native_method("sum", NativeArity::exactly(0), NativeFn::ListSum));
    table.push(native_method("to_s", NativeArity::exactly(0), NativeFn::ListToS));
    table.push(native_method("uniq", NativeArity::exactly(0), NativeFn::ListUniq));
    assert(method_entries(table@) =~= list_methods());
    define_native_table(heap, class_ref, table, false);
}

} // verus!
