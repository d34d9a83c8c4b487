//! Native methods of `Nil`.
use vstd::prelude::*;

use crate::gc::GcHeap;
use crate::vm::{HeapObject, VmError, VmValue};

use crate::vm::{binds_all, define_native_table, method_entries, native_method, NativeArity, NativeFn, NativeMethod};
use crate::gc::GcRef;
verus! {

pub fn nil_inspect(
    _heap: &mut GcHeap<HeapObject>,
    _recv: &VmValue,
    _args: &[VmValue],
    _line: u32,
) -> (res: Result<VmValue, VmError>)
    ensures
        res matches Ok(VmValue::Str(s)) && s@ == "nil"@,
        *final(_heap) == *old(_heap),
{
    Ok(VmValue::Str(String::from_str("nil")))
}

pub fn nil_nil_q(
    _heap: &mut GcHeap<HeapObject>,
    _recv: &VmValue,
    _args: &[VmValue],
    _line: u32,
) -> (res: Result<VmValue, VmError>)
    ensures
        res == Ok::<VmValue, VmError>(VmValue::Bool(true)),
        *final(_heap) == *old(_heap),
{
    Ok(VmValue::Bool(true))
}

pub fn nil_to_s(
    _heap: &mut GcHeap<HeapObject>,
    _recv: &VmValue,
    _args: &[VmValue],
    _line: u32,
) -> (res: Result<VmValue, VmError>)
    ensures
        res matches Ok(VmValue::Str(s)) && s@ == Seq::<char>::empty(),
        *final(_heap) == *old(_heap),
{
    Ok(VmValue::Str(String::new()))
}


/// The instance methods that `register_methods` binds on the `Nil` class, in binding order.
pub open spec fn nil_methods() -> Seq<(Seq<char>, NativeArity, NativeFn)> {
    seq![
        ("inspect"@, NativeArity { min: 0, max: 0 }, NativeFn::NilInspect),
        ("nil?"@, NativeArity { min: 0, max: 0 }, NativeFn::NilNilQ),
        ("to_s"@, NativeArity { min: 0, max: 0 }, NativeFn::NilToS),
    ]
}

/// Bind the native instance methods of `Nil` on the class object in `class_ref`.
pub fn register_methods(heap: &mut GcHeap<HeapObject>, class_ref: GcRef)
    requires
        old(heap).is_class(class_ref),
        old(heap).wf(),
    ensures
        final(heap)@ == old(heap)@.update(class_ref.0 as int, final(heap)@[class_ref.0 as int]),
        binds_all(
            old(heap)@[class_ref.0 as int],
            final(heap)@[class_ref.0 as int],
            false,
            nil_methods(),
        ),
        final(heap).wf(),
{
    let mut table: Vec<NativeMethod> = Vec::new();
    table.push(native_method("inspect", NativeArity::exactly(0), NativeFn::NilInspect));
    table.push(native_method("nil?", NativeArity::exactly(0), NativeFn::NilNilQ));
    table.push(native_method("to_s", NativeArity::exactly(0), NativeFn::NilToS));
    assert(method_entries(table@) =~= nil_methods());
    define_native_table(heap, class_ref, table, false);
}

} // verus!
