//! Native methods of `Range` (half-open: `from` included, `to` excluded).
use vstd::prelude::*;

use crate::gc::{GcHeap, GcRef};
use crate::text::{i64_to_string, int_decimal};
use crate::vm::{is_type_error, type_error, HeapObject, ObjView, VmError, VmValue};

use crate::vm::{binds_all, define_native_table, method_entries, native_method, NativeArity, NativeFn, NativeMethod};
verus! {

pub open spec fn range_from(recv: VmValue) -> i64 {
    recv->Range_from
}

pub open spec fn range_to(recv: VmValue) -> i64 {
    recv->Range_to
}

fn range_recv(recv: &VmValue) -> (r: (i64, i64))
    requires
        recv is Range,
    ensures
        r == (range_from(*recv), range_to(*recv)),
{
    match recv {
        VmValue::Range { from, to } => (*from, *to),
        _ => vstd::pervasive::unreached(),
    }
}

pub fn range_first(
    _heap: &mut GcHeap<HeapObject>,
    recv: &VmValue,
    _args: &[VmValue],
    _line: u32,
) -> (res: Result<VmValue, VmError>)
    requires
        recv is Range,
    ensures
        res == Ok::<VmValue, VmError>(VmValue::Int(range_from(*recv))),
        *final(_heap) == *old(_heap),
{
    let (from, _to) = range_recv(recv);
    Ok(VmValue::Int(from))
}

/// Whether an integer lies in `from..to`.
pub fn range_include_q(
    _heap: &mut GcHeap<HeapObject>,
    recv: &VmValue,
    args: &[VmValue],
    line: u32,
) -> (res: Result<VmValue, VmError>)
    requires
        recv is Range,
        args@.len() == 1,
    ensures
        *final(_heap) == *old(_heap),
        match args@[0] {
            VmValue::Int(n) => res == Ok::<VmValue, VmError>(
                VmValue::Bool(range_from(*recv) <= n && n < range_to(*recv)),
            ),
            _ => res matches Err(e) && is_type_error(e, "include? expects an Int"@, line),
        },
{
    let (from, to) = range_recv(recv);
    match &args[0] {
        VmValue::Int(n) => Ok(VmValue::Bool(*n >= from && *n < to)),
        _ => Err(type_error("include? expects an Int", line)),
    }
}

/// The last integer of the range, `to - 1`.
pub fn range_last(
    _heap: &mut GcHeap<HeapObject>,
    recv: &VmValue,
    _args: &[VmValue],
    _line: u32,
) -> (res: Result<VmValue, VmError>)
    requires
        recv is Range,
        range_to(*recv) > i64::MIN,
    ensures
        res == Ok::<VmValue, VmError>(VmValue::Int((range_to(*recv) - 1) as i64)),
        *final(_heap) == *old(_heap),
{
    let (_from, to) = range_recv(recv);
    Ok(VmValue::Int(to - 1))
}

/// The largest integer of the range, `to - 1`.
pub fn range_max(
    _heap: &mut GcHeap<HeapObject>,
    recv: &VmValue,
    _args: &[VmValue],
    _line: u32,
) -> (res: Result<VmValue, VmError>)
    requires
        recv is Range,
        range_to(*recv) > i64::MIN,
    ensures
        res == Ok::<VmValue, VmError>(VmValue::Int((range_to(*recv) - 1) as i64)),
        *final(_heap) == *old(_heap),
{
    let (_from, to) = range_recv(recv);
    Ok(VmValue::Int(to - 1))
}

pub fn range_min(
    _heap: &mut GcHeap<HeapObject>,
    recv: &VmValue,
    _args: &[VmValue],
    _line: u32,
) -> (res: Result<VmValue, VmError>)
    requires
        recv is Range,
    ensures
        res == Ok::<VmValue, VmError>(VmValue::Int(range_from(*recv))),
        *final(_heap) == *old(_heap),
{
    let (from, _to) = range_recv(recv);
    Ok(VmValue::Int(from))
}

/// The number of integers in the range (zero when `to <= from`).
pub fn range_size(
    _heap: &mut GcHeap<HeapObject>,
    recv: &VmValue,
    _args: &[VmValue],
    _line: u32,
) -> (res: Result<VmValue, VmError>)
    requires
        recv is Range,
        i64::MIN <= range_to(*recv) - range_from(*recv) <= i64::MAX,
    ensures
        res == Ok::<VmValue, VmError>(
            VmValue::Int(
                if range_to(*recv) > range_from(*recv) {
                    (range_to(*recv) - range_from(*recv)) as i64
                } else {
                    0
                },
            ),
        ),
        *final(_heap) == *old(_heap),
{
    let (from, to) = range_recv(recv);
    let d = to - from;
    Ok(VmValue::Int(if d > 0 { d } else { 0 }))
}

/// The integers `from, from + 1, ..., to - 1`.
pub open spec fn range_ints(from: i64, to: i64) -> Seq<VmValue> {
    Seq::new(
        if to > from { (to - from) as nat } else { 0 },
        |i: int| VmValue::Int((from + i) as i64),
    )
}

/// A new list of the integers of the range.
pub fn range_to_a(
    heap: &mut GcHeap<HeapObject>,
    recv: &VmValue,
    _args: &[VmValue],
    _line: u32,
) -> (res: Result<VmValue, VmError>)
    requires
        recv is Range,
        old(heap).wf(),
    ensures
        res == Ok::<VmValue, VmError>(VmValue::List(GcRef(old(heap)@.len() as usize))),
        final(heap)@ == old(heap)@.push(
            ObjView::List(range_ints(range_from(*recv), range_to(*recv))),
        ),
        final(heap).wf(),
{
    let (from, to) = range_recv(recv);
    let mut v: Vec<VmValue> = Vec::new();
    let mut i: i64 = from;
    while i < to
        invariant
            from <= i,
            from < to ==> i <= to,
            from >= to ==> i == from,
            v@ == range_ints(from, i),
        decreases to - i,
    {
        v.push(VmValue::Int(i));
        i += 1;
        assert(v@ =~= range_ints(from, i));
    }
    assert(v@ =~= range_ints(from, to));
    let nr = heap.allocate(HeapObject::List(v));
    Ok(VmValue::List(nr))
}

/// The range as `from..to`.
pub fn range_to_s(
    _heap: &mut GcHeap<HeapObject>,
    recv: &VmValue,
    _args: &[VmValue],
    _line: u32,
) -> (res: Result<VmValue, VmError>)
    requires
        recv is Range,
    ensures
        *final(_heap) == *old(_heap),
        res matches Ok(VmValue::Str(s)) && s@ == int_decimal(range_from(*recv) as int) + ".."@
            + int_decimal(range_to(*recv) as int),
{
    let (from, to) = range_recv(recv);
    let mut s = i64_to_string(from);
    s.append("..");
    let t = i64_to_string(to);
    s.append(t.as_str());
    Ok(VmValue::Str(s))
}


/// The instance methods that `register_methods` binds on the `Range` class, in binding order.
pub open spec fn range_methods() -> Seq<(Seq<char>, NativeArity, NativeFn)> {
    seq![
        ("first"@, NativeArity { min: 0, max: 0 }, NativeFn::RangeFirst),
        ("include?"@, NativeArity { min: 1, max: 1 }, NativeFn::RangeIncludeQ),
        ("last"@, NativeArity { min: 0, max: 0 }, NativeFn::RangeLast),
        ("max"@, NativeArity { min: 0, max: 0 }, NativeFn::RangeMax),
        ("min"@, NativeArity { min: 0, max: 0 }, NativeFn::RangeMin),
        ("size"@, NativeArity { min: 0, max: 0 }, NativeFn::RangeSize),
        ("to_a"@, NativeArity { min: 0, max: 0 }, NativeFn::RangeToA),
        ("to_s"@, NativeArity { min: 0, max: 0 }, NativeFn::RangeToS),
    ]
}

/// Bind the native instance methods of `Range` on the class object in `class_ref`.
pub fn register_methods(heap: &mut GcHeap<HeapObject>, class_ref: GcRef)
    requires
        old(heap).is_class(class_ref),
        old(heap).wf(),
    ensures
        final(heap)@ == old(heap)@.update(class_ref.0 as int, final(heap)@[class_ref.0 as int]),
        binds_all(
            old(heap)@[class_ref.0 as int],
            final(heap)@[class_ref.0 as int],
            false,
            range_methods(),
        ),
        final(heap).wf(),
{
    let mut table: Vec<NativeMethod> = Vec::new();
    table.push(native_method("first", NativeArity::exactly(0), NativeFn::RangeFirst));
    table.push(native_method("include?", NativeArity::exactly(1), NativeFn::RangeIncludeQ));
    table.push(native_method("last", NativeArity::exactly(0), NativeFn::RangeLast));
    table.push(native_method("max", NativeArity::exactly(0), NativeFn::RangeMax));
    table.push(native_method("min", NativeArity::exactly(0), NativeFn::RangeMin));
    table.push(native_method("size", NativeArity::exactly(0), NativeFn::RangeSize));
    table.push(native_method("to_a", NativeArity::exactly(0), NativeFn::RangeToA));
    table.push(native_method("to_s", NativeArity::exactly(0), NativeFn::RangeToS));
    assert(method_entries(table@) =~= range_methods());
    define_native_table(heap, class_ref, table, false);
}

} // verus!
