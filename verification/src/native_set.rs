//! Native methods of `Set`.  A set holds its elements in insertion order.
use vstd::prelude::*;

use crate::gc::{GcHeap, GcRef};
use crate::native_list::{dedup_seq, dedup_values};
use crate::vm::{
    contains_value, copy_values, is_type_error, position_of_value, seq_has_value, type_error,
    value_eq, HeapObject, ObjView, VmError, VmValue,
};

use crate::vm::{binds_all, define_native_table, method_entries, native_method, NativeArity, NativeFn, NativeMethod};
verus! {

pub open spec fn set_ref(recv: VmValue) -> GcRef {
    recv->SetRef_0
}

/// What every `Set` native expects: a well-formed heap and a receiver that
/// is a set on it.
pub open spec fn set_recv_ok(heap: &GcHeap<HeapObject>, recv: VmValue) -> bool {
    heap.wf() && recv is SetRef && heap.is_set(set_ref(recv))
}

/// The argument, when it is a set, is a set on the heap.
pub open spec fn set_arg_ok(heap: &GcHeap<HeapObject>, arg: VmValue) -> bool {
    arg matches VmValue::SetRef(o) ==> heap.is_set(o)
}

fn set_r(recv: &VmValue) -> (r: GcRef)
    requires
        recv is SetRef,
    ensures
        r == set_ref(*recv),
{
    match recv {
        VmValue::SetRef(r) => *r,
        _ => vstd::pervasive::unreached(),
    }
}

/// The elements of `s` whose membership in `o` is `keep`, in order.
pub open spec fn filter_by_membership(s: Seq<VmValue>, o: Seq<VmValue>, keep: bool) -> Seq<VmValue>
    decreases s.len(),
{
    if s.len() == 0 {
        Seq::empty()
    } else {
        let f = filter_by_membership(s.drop_last(), o, keep);
        if seq_has_value(o, s.last()) == keep {
            f.push(s.last())
        } else {
            f
        }
    }
}

/// `base` followed by each element of `other` not already present.
pub open spec fn union_seq(base: Seq<VmValue>, other: Seq<VmValue>) -> Seq<VmValue>
    decreases other.len(),
{
    if other.len() == 0 {
        base
    } else {
        let u = union_seq(base, other.drop_last());
        if seq_has_value(u, other.last()) {
            u
        } else {
            u.push(other.last())
        }
    }
}

/// Some element of `s` equals some element of `o`.
pub open spec fn any_in(s: Seq<VmValue>, o: Seq<VmValue>) -> bool {
    exists|i: int| 0 <= i < s.len() && seq_has_value(o, #[trigger] s[i])
}

/// Every element of `s` equals some element of `o`.
pub open spec fn all_in(s: Seq<VmValue>, o: Seq<VmValue>) -> bool {
    forall|i: int| 0 <= i < s.len() ==> seq_has_value(o, #[trigger] s[i])
}

fn filter_values(items: &Vec<VmValue>, other: &Vec<VmValue>, keep: bool) -> (out: Vec<VmValue>)
    ensures
        out@ == filter_by_membership(items@, other@, keep),
{
    let mut out: Vec<VmValue> = Vec::new();
    let mut i: usize = 0;
    while i < items.len()
        invariant
            i <= items@.len(),
            out@ == filter_by_membership(items@.take(i as int), other@, keep),
        decreases items@.len() - i,
    {
        assert(items@.take(i + 1).drop_last() =~= items@.take(i as int));
        if contains_value(other, &items[i]) == keep {
            out.push(items[i].copy());
        }
        i += 1;
    }
    assert(items@.take(items@.len() as int) =~= items@);
    out
}

fn all_values_in(items: &Vec<VmValue>, other: &Vec<VmValue>) -> (r: bool)
    ensures
        r == all_in(items@, other@),
{
    let mut i: usize = 0;
    while i < items.len()
        invariant
            i <= items@.len(),
            forall|k: int| 0 <= k < i ==> seq_has_value(other@, #[trigger] items@[k]),
        decreases items@.len() - i,
    {
        if !contains_value(other, &items[i]) {
            return false;
        }
        i += 1;
    }
    true
}

/// Adds the argument unless an equal element is present; answers the receiver.
pub fn set_add(
    heap: &mut GcHeap<HeapObject>,
    recv: &VmValue,
    args: &[VmValue],
    _line: u32,
) -> (res: Result<VmValue, VmError>)
    requires
        set_recv_ok(old(heap), *recv),
        args@.len() >= 1,
    ensures
        res == Ok::<VmValue, VmError>(*recv),
        final(heap).wf(),
        seq_has_value(old(heap).set(set_ref(*recv)), args@[0]) ==> final(heap)@ == old(heap)@,
        !seq_has_value(old(heap).set(set_ref(*recv)), args@[0]) ==> final(heap)@ == old(heap)@.update(
            set_ref(*recv).0 as int,
            ObjView::SetObj(old(heap).set(set_ref(*recv)).push(args@[0])),
        ),
{
    let r = set_r(recv);
    let item = args[0].copy();
    if !contains_value(heap.get_set(r), &item) {
        heap.set_push(r, item);
    }
    Ok(recv.copy())
}

/// Removes the first element equal to the argument, if any; answers the receiver.
pub fn set_delete(
    heap: &mut GcHeap<HeapObject>,
    recv: &VmValue,
    args: &[VmValue],
    _line: u32,
) -> (res: Result<VmValue, VmError>)
    requires
        set_recv_ok(old(heap), *recv),
        args@.len() >= 1,
    ensures
        res == Ok::<VmValue, VmError>(*recv),
        final(heap).wf(),
        !seq_has_value(old(heap).set(set_ref(*recv)), args@[0]) ==> final(heap)@ == old(heap)@,
        seq_has_value(old(heap).set(set_ref(*recv)), args@[0]) ==> exists|i: int|
            0 <= i < old(heap).set(set_ref(*recv)).len() && value_eq(
                #[trigger] old(heap).set(set_ref(*recv))[i],
                args@[0],
            ) && (forall|j: int|
                0 <= j < i ==> !value_eq(#[trigger] old(heap).set(set_ref(*recv))[j], args@[0]))
                && final(heap)@ == old(heap)@.update(
                set_ref(*recv).0 as int,
                ObjView::SetObj(old(heap).set(set_ref(*recv)).remove(i)),
            ),
{
    let r = set_r(recv);
    let item = &args[0];
    match position_of_value(heap.get_set(r), item) {
        Some(i) => {
            heap.set_remove_at(r, i);
        },
        None => {},
    }
    Ok(recv.copy())
}

/// A new set of the receiver's elements that are not in the argument set.
pub fn set_difference(
    heap: &mut GcHeap<HeapObject>,
    recv: &VmValue,
    args: &[VmValue],
    line: u32,
) -> (res: Result<VmValue, VmError>)
    requires
        set_recv_ok(old(heap), *recv),
        args@.len() >= 1,
        set_arg_ok(old(heap), args@[0]),
    ensures
        final(heap).wf(),
        match args@[0] {
            VmValue::SetRef(o) => res == Ok::<VmValue, VmError>(
                VmValue::SetRef(GcRef(old(heap)@.len() as usize)),
            ) && final(heap)@ == old(heap)@.push(
                ObjView::SetObj(
                    filter_by_membership(old(heap).set(set_ref(*recv)), old(heap).set(o), false),
                ),
            ),
            _ => res matches Err(e) && is_type_error(e, "difference expects a Set"@, line)
                && *final(heap) == *old(heap),
        },
{
    let r = set_r(recv);
    match &args[0] {
        VmValue::SetRef(other_r) => {
            let result = filter_values(heap.get_set(r), heap.get_set(*other_r), false);
            let nr = heap.allocate(HeapObject::SetObj(result));
            Ok(VmValue::SetRef(nr))
        },
        _ => Err(type_error("difference expects a Set", line)),
    }
}

/// Whether no element of the receiver is in the argument set.
pub fn set_disjoint(
    heap: &mut GcHeap<HeapObject>,
    recv: &VmValue,
    args: &[VmValue],
    line: u32,
) -> (res: Result<VmValue, VmError>)
    requires
        set_recv_ok(old(heap), *recv),
        args@.len() >= 1,
        set_arg_ok(old(heap), args@[0]),
    ensures
        *final(heap) == *old(heap),
        match args@[0] {
            VmValue::SetRef(o) => res == Ok::<VmValue, VmError>(
                VmValue::Bool(!any_in(old(heap).set(set_ref(*recv)), old(heap).set(o))),
            ),
            _ => res matches Err(e) && is_type_error(e, "disjoint? expects a Set"@, line),
        },
{
    let r = set_r(recv);
    match &args[0] {
        VmValue::SetRef(other_r) => {
            let items = heap.get_set(r);
            let other = heap.get_set(*other_r);
            let mut i: usize = 0;
            while i < items.len()
                invariant
                    i <= items@.len(),
                    items@ == old(heap).set(set_ref(*recv)),
                    other@ == old(heap).set(*other_r),
                    args@[0] == VmValue::SetRef(*other_r),
                    forall|k: int| 0 <= k < i ==> !seq_has_value(other@, #[trigger] items@[k]),
                decreases items@.len() - i,
            {
                if contains_value(other, &items[i]) {
                    assert(seq_has_value(other@, items@[i as int]));
                    assert(any_in(items@, other@));
                    return Ok(VmValue::Bool(false));
                }
                i += 1;
            }
            Ok(VmValue::Bool(true))
        },
        _ => Err(type_error("disjoint? expects a Set", line)),
    }
}

pub fn set_empty(
    heap: &mut GcHeap<HeapObject>,
    recv: &VmValue,
    _args: &[VmValue],
    _line: u32,
) -> (res: Result<VmValue, VmError>)
    requires
        set_recv_ok(old(heap), *recv),
    ensures
        res == Ok::<VmValue, VmError>(VmValue::Bool(old(heap).set(set_ref(*recv)).len() == 0)),
        *final(heap) == *old(heap),
{
    let r = set_r(recv);
    Ok(VmValue::Bool(heap.get_set(r).len() == 0))
}

pub fn set_include(
    heap: &mut GcHeap<HeapObject>,
    recv: &VmValue,
    args: &[VmValue],
    _line: u32,
) -> (res: Result<VmValue, VmError>)
    requires
        set_recv_ok(old(heap), *recv),
        args@.len() >= 1,
    ensures
        res == Ok::<VmValue, VmError>(
            VmValue::Bool(seq_has_value(old(heap).set(set_ref(*recv)), args@[0])),
        ),
        *final(heap) == *old(heap),
{
    let r = set_r(recv);
    Ok(VmValue::Bool(contains_value(heap.get_set(r), &args[0])))
}

/// A new set of the receiver's elements that are also in the argument set.
pub fn set_intersection(
    heap: &mut GcHeap<HeapObject>,
    recv: &VmValue,
    args: &[VmValue],
    line: u32,
) -> (res: Result<VmValue, VmError>)
    requires
        set_recv_ok(old(heap), *recv),
        args@.len() >= 1,
        set_arg_ok(old(heap), args@[0]),
    ensures
        final(heap).wf(),
        match args@[0] {
            VmValue::SetRef(o) => res == Ok::<VmValue, VmError>(
                VmValue::SetRef(GcRef(old(heap)@.len() as usize)),
            ) && final(heap)@ == old(heap)@.push(
                ObjView::SetObj(
                    filter_by_membership(old(heap).set(set_ref(*recv)), old(heap).set(o), true),
                ),
            ),
            _ => res matches Err(e) && is_type_error(e, "intersection expects a Set"@, line)
                && *final(heap) == *old(heap),
        },
{
    let r = set_r(recv);
    match &args[0] {
        VmValue::SetRef(other_r) => {
            let result = filter_values(heap.get_set(r), heap.get_set(*other_r), true);
            let nr = heap.allocate(HeapObject::SetObj(result));
            Ok(VmValue::SetRef(nr))
        },
        _ => Err(type_error("intersection expects a Set", line)),
    }
}

pub fn set_size(
    heap: &mut GcHeap<HeapObject>,
    recv: &VmValue,
    _args: &[VmValue],
    _line: u32,
) -> (res: Result<VmValue, VmError>)
    requires
        set_recv_ok(old(heap), *recv),
    ensures
        res == Ok::<VmValue, VmError>(VmValue::Int(old(heap).set(set_ref(*recv)).len() as i64)),
        *final(heap) == *old(heap),
{
    let r = set_r(recv);
    Ok(VmValue::Int(heap.get_set(r).len() as i64))
}

/// Whether every element of the receiver is in the argument set.
pub fn set_subset(
    heap: &mut GcHeap<HeapObject>,
    recv: &VmValue,
    args: &[VmValue],
    line: u32,
) -> (res: Result<VmValue, VmError>)
    requires
        set_recv_ok(old(heap), *recv),
        args@.len() >= 1,
        set_arg_ok(old(heap), args@[0]),
    ensures
        *final(heap) == *old(heap),
        match args@[0] {
            VmValue::SetRef(o) => res == Ok::<VmValue, VmError>(
                VmValue::Bool(all_in(old(heap).set(set_ref(*recv)), old(heap).set(o))),
            ),
            _ => res matches Err(e) && is_type_error(e, "subset? expects a Set"@, line),
        },
{
    let r = set_r(recv);
    match &args[0] {
        VmValue::SetRef(other_r) => Ok(
            VmValue::Bool(all_values_in(heap.get_set(r), heap.get_set(*other_r))),
        ),
        _ => Err(type_error("subset? expects a Set", line)),
    }
}

/// Whether every element of the argument set is in the receiver.
pub fn set_superset(
    heap: &mut GcHeap<HeapObject>,
    recv: &VmValue,
    args: &[VmValue],
    line: u32,
) -> (res: Result<VmValue, VmError>)
    requires
        set_recv_ok(old(heap), *recv),
        args@.len() >= 1,
        set_arg_ok(old(heap), args@[0]),
    ensures
        *final(heap) == *old(heap),
        match args@[0] {
            VmValue::SetRef(o) => res == Ok::<VmValue, VmError>(
                VmValue::Bool(all_in(old(heap).set(o), old(heap).set(set_ref(*recv)))),
            ),
            _ => res matches Err(e) && is_type_error(e, "superset? expects a Set"@, line),
        },
{
    let r = set_r(recv);
    match &args[0] {
        VmValue::SetRef(other_r) => Ok(
            VmValue::Bool(all_values_in(heap.get_set(*other_r), heap.get_set(r))),
        ),
        _ => Err(type_error("superset? expects a Set", line)),
    }
}

/// A new list of the elements, in order.
pub fn set_to_a(
    heap: &mut GcHeap<HeapObject>,
    recv: &VmValue,
    _args: &[VmValue],
    _line: u32,
) -> (res: Result<VmValue, VmError>)
    requires
        set_recv_ok(old(heap), *recv),
    ensures
        res == Ok::<VmValue, VmError>(VmValue::List(GcRef(old(heap)@.len() as usize))),
        final(heap)@ == old(heap)@.push(ObjView::List(old(heap).set(set_ref(*recv)))),
        final(heap).wf(),
{
    let r = set_r(recv);
    let items = copy_values(heap.get_set(r));
    let nr = heap.allocate(HeapObject::List(items));
    Ok(VmValue::List(nr))
}

/// A new set: the receiver's elements followed by the argument's elements
/// not already present.
pub fn set_union(
    heap: &mut GcHeap<HeapObject>,
    recv: &VmValue,
    args: &[VmValue],
    line: u32,
) -> (res: Result<VmValue, VmError>)
    requires
        set_recv_ok(old(heap), *recv),
        args@.len() >= 1,
        set_arg_ok(old(heap), args@[0]),
    ensures
        final(heap).wf(),
        match args@[0] {
            VmValue::SetRef(o) => res == Ok::<VmValue, VmError>(
                VmValue::SetRef(GcRef(old(heap)@.len() as usize)),
            ) && final(heap)@ == old(heap)@.push(
                ObjView::SetObj(union_seq(old(heap).set(set_ref(*recv)), old(heap).set(o))),
            ),
            _ => res matches Err(e) && is_type_error(e, "union expects a Set"@, line)
                && *final(heap) == *old(heap),
        },
{
    let r = set_r(recv);
    match &args[0] {
        VmValue::SetRef(other_r) => {
            let mut result = copy_values(heap.get_set(r));
            let other = heap.get_set(*other_r);
            let ghost base = result@;
            let mut i: usize = 0;
            while i < other.len()
                invariant
                    i <= other@.len(),
                    result@ == union_seq(base, other@.take(i as int)),
                decreases other@.len() - i,
            {
                assert(other@.take(i + 1).drop_last() =~= other@.take(i as int));
                if !contains_value(&result, &other[i]) {
                    result.push(other[i].copy());
                }
                i += 1;
            }
            assert(other@.take(other@.len() as int) =~= other@);
            let nr = heap.allocate(HeapObject::SetObj(result));
            Ok(VmValue::SetRef(nr))
        },
        _ => Err(type_error("union expects a Set", line)),
    }
}

/// `Set.new`: an empty set, or a set of the distinct elements of a list, or
/// a copy of a set.
pub fn set_class_new(
    heap: &mut GcHeap<HeapObject>,
    _recv: &VmValue,
    args: &[VmValue],
    line: u32,
) -> (res: Result<VmValue, VmError>)
    requires
        old(heap).wf(),
        args@.len() == 1 ==> (args@[0] matches VmValue::List(l) ==> old(heap).is_list(l)),
        args@.len() == 1 ==> set_arg_ok(old(heap), args@[0]),
    ensures
        final(heap).wf(),
        args@.len() == 0 ==> res == Ok::<VmValue, VmError>(
            VmValue::SetRef(GcRef(old(heap)@.len() as usize)),
        ) && final(heap)@ == old(heap)@.push(ObjView::SetObj(Seq::empty())),
        args@.len() == 1 && args@[0] is List ==> res == Ok::<VmValue, VmError>(
            VmValue::SetRef(GcRef(old(heap)@.len() as usize)),
        ) && final(heap)@ == old(heap)@.push(
            ObjView::SetObj(dedup_seq(old(heap).list(args@[0]->List_0))),
        ),
        args@.len() == 1 && args@[0] is SetRef ==> res == Ok::<VmValue, VmError>(
            VmValue::SetRef(GcRef(old(heap)@.len() as usize)),
        ) && final(heap)@ == old(heap)@.push(ObjView::SetObj(old(heap).set(args@[0]->SetRef_0))),
        (args@.len() > 1 || (args@.len() == 1 && !(args@[0] is List) && !(args@[0] is SetRef)))
            ==> (res matches Err(e) && is_type_error(
            e,
            "Set.new: expected no arguments, a List, or a Set"@,
            line,
        ) && *final(heap) == *old(heap)),
{
    if args.len() == 0 {
        let v: Vec<VmValue> = Vec::new();
        let nr = heap.allocate(HeapObject::SetObj(v));
        assert(v@ =~= Seq::<VmValue>::empty());
        return Ok(VmValue::SetRef(nr));
    }
    if args.len() == 1 {
        match &args[0] {
            VmValue::List(list_ref) => {
                let elements = dedup_values(heap.get_list(*list_ref));
                let nr = heap.allocate(HeapObject::SetObj(elements));
                return Ok(VmValue::SetRef(nr));
            },
            VmValue::SetRef(set_ref) => {
                let items = copy_values(heap.get_set(*set_ref));
                let nr = heap.allocate(HeapObject::SetObj(items));
                return Ok(VmValue::SetRef(nr));
            },
            _ => {},
        }
    }
    Err(type_error("Set.new: expected no arguments, a List, or a Set", line))
}

/// Deduplicate a list of values, preserving insertion order.
pub fn dedup_list(items: Vec<VmValue>) -> (out: Vec<VmValue>)
    ensures
        out@ == dedup_seq(items@),
{
    dedup_values(&items)
}


/// The instance methods that `register_methods` binds on the `Set` class, in binding order.
pub open spec fn set_methods() -> Seq<(Seq<char>, NativeArity, NativeFn)> {
    seq![
        ("add"@, NativeArity { min: 1, max: 1 }, NativeFn::SetAdd),
        ("delete"@, NativeArity { min: 1, max: 1 }, NativeFn::SetDelete),
        ("difference"@, NativeArity { min: 1, max: 1 }, NativeFn::SetDifference),
        ("disjoint?"@, NativeArity { min: 1, max: 1 }, NativeFn::SetDisjoint),
        ("empty?"@, NativeArity { min: 0, max: 0 }, NativeFn::SetEmpty),
        ("include?"@, NativeArity { min: 1, max: 1 }, NativeFn::SetInclude),
        ("intersection"@, NativeArity { min: 1, max: 1 }, NativeFn::SetIntersection),
        ("size"@, NativeArity { min: 0, max: 0 }, NativeFn::SetSize),
        ("subset?"@, NativeArity { min: 1, max: 1 }, NativeFn::SetSubset),
        ("superset?"@, NativeArity { min: 1, max: 1 }, NativeFn::SetSuperset),
        ("to_a"@, NativeArity { min: 0, max: 0 }, NativeFn::SetToA),
        ("to_s"@, NativeArity { min: 0, max: 0 }, NativeFn::SetToS),
        ("union"@, NativeArity { min: 1, max: 1 }, NativeFn::SetUnion),
    ]
}

/// Bind the native instance methods of `Set` on the class object in `class_ref`.
pub fn register_methods(heap: &mut GcHeap<HeapObject>, class_ref: GcRef)
    requires
        old(heap).is_class(class_ref),
        old(heap).wf(),
    ensures
        final(heap)@ == old(heap)@.update(class_ref.0 as int, final(heap)@[class_ref.0 as int]),
        binds_all(
            old(heap)@[class_ref.0 as int],
            final(heap)@[class_ref.0 as int],
            false,
            set_methods(),
        ),
        final(heap).wf(),
{
    let mut table: Vec<NativeMethod> = Vec::new();
    table.push(native_method("add", NativeArity::exactly(1), NativeFn::SetAdd));
    table.push(native_method("delete", NativeArity::exactly(1), NativeFn::SetDelete));
    table.push(native_method("difference", NativeArity::exactly(1), NativeFn::SetDifference));
    table.push(native_method("disjoint?", NativeArity::exactly(1), NativeFn::SetDisjoint));
    table.push(native_method("empty?", NativeArity::exactly(0), NativeFn::SetEmpty));
    table.push(native_method("include?", NativeArity::exactly(1), NativeFn::SetInclude));
    table.push(native_method("intersection", NativeArity::exactly(1), NativeFn::SetIntersection));
    table.push(native_method("size", NativeArity::exactly(0), NativeFn::SetSize));
    table.push(native_method("subset?", NativeArity::exactly(1), NativeFn::SetSubset));
    table.push(native_method("superset?", NativeArity::exactly(1), NativeFn::SetSuperset));
    table.push(native_method("to_a", NativeArity::exactly(0), NativeFn::SetToA));
    table.push(native_method("to_s", NativeArity::exactly(0), NativeFn::SetToS));
    table.push(native_method("union", NativeArity::exactly(1), NativeFn::SetUnion));
    assert(method_entries(table@) =~= set_methods());
    define_native_table(heap, class_ref, table, false);
}


/// The class methods that `register_class_methods` binds on the `Set` class, in binding order.
pub open spec fn set_class_methods() -> Seq<(Seq<char>, NativeArity, NativeFn)> {
    seq![
        ("new"@, NativeArity { min: 0, max: 1 }, NativeFn::SetNew),
    ]
}

/// Bind the native class methods of `Set` on the class object in `class_ref`.
pub fn register_class_methods(heap: &mut GcHeap<HeapObject>, class_ref: GcRef)
    requires
        old(heap).is_class(class_ref),
        old(heap).wf(),
    ensures
        final(heap)@ == old(heap)@.update(class_ref.0 as int, final(heap)@[class_ref.0 as int]),
        binds_all(
            old(heap)@[class_ref.0 as int],
            final(heap)@[class_ref.0 as int],
            true,
            set_class_methods(),
        ),
        final(heap).wf(),
{
    let mut table: Vec<NativeMethod> = Vec::new();
    table.push(native_method("new", NativeArity { min: 0, max: 1 }, NativeFn::SetNew));
    assert(method_entries(table@) =~= set_class_methods());
    define_native_table(heap, class_ref, table, true);
}

} // verus!
