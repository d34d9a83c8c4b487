//! The `Float` class: its method table, and the methods that read a float's
//! bit pattern.  The methods that compute with floating point are bound by
//! the embedding program.
use vstd::prelude::*;

use crate::gc::{GcHeap, GcRef};
use crate::vm::{
    binds_all, define_native_table, float_is_nan, method_entries, native_method, HeapObject,
    NativeArity, NativeFn, NativeMethod, VmError, VmValue,
};

verus! {

/// An infinity: all exponent bits set and a zero fraction, of either sign.
pub open spec fn float_is_infinite(b: u64) -> bool {
    (b & 0x7fff_ffff_ffff_ffffu64) == 0x7ff0_0000_0000_0000u64
}

/// `Float#infinite?`: whether the receiver is positive or negative infinity.
pub fn float_infinite(
    _heap: &mut GcHeap<HeapObject>,
    recv: &VmValue,
    _args: &[VmValue],
    _line: u32,
) -> (res: Result<VmValue, VmError>)
    requires
        recv is Float,
    ensures
        res == Ok::<VmValue, VmError>(VmValue::Bool(float_is_infinite(recv->Float_0))),
        *final(_heap) == *old(_heap),
{
    match recv {
        VmValue::Float(b) => Ok(VmValue::Bool((*b & 0x7fff_ffff_ffff_ffffu64) == 0x7ff0_0000_0000_0000u64)),
        _ => Ok(VmValue::Bool(false)),
    }
}

/// `Float#nan?`: whether the receiver is not a number.
pub fn float_nan(
    _heap: &mut GcHeap<HeapObject>,
    recv: &VmValue,
    _args: &[VmValue],
    _line: u32,
) -> (res: Result<VmValue, VmError>)
    requires
        recv is Float,
    ensures
        res == Ok::<VmValue, VmError>(VmValue::Bool(float_is_nan(recv->Float_0))),
        *final(_heap) == *old(_heap),
{
    match recv {
        VmValue::Float(b) => Ok(VmValue::Bool(
            (*b & 0x7ff0_0000_0000_0000u64) == 0x7ff0_0000_0000_0000u64 && (*b & 0x000f_ffff_ffff_ffffu64) != 0,
        )),
        _ => Ok(VmValue::Bool(false)),
    }
}

/// The instance methods that `register_methods` binds on the `Float` class, in binding order.
pub open spec fn float_methods() -> Seq<(Seq<char>, NativeArity, NativeFn)> {
    seq![
        ("ceil"@, NativeArity { min: 0, max: 0 }, NativeFn::FloatCeil),
        ("floor"@, NativeArity { min: 0, max: 0 }, NativeFn::FloatFloor),
        ("infinite?"@, NativeArity { min: 0, max: 0 }, NativeFn::FloatInfinite),
        ("nan?"@, NativeArity { min: 0, max: 0 }, NativeFn::FloatNan),
        ("round"@, NativeArity { min: 0, max: 0 }, NativeFn::FloatRound),
        ("sqrt"@, NativeArity { min: 0, max: 0 }, NativeFn::FloatSqrt),
        ("to_i"@, NativeArity { min: 0, max: 0 }, NativeFn::FloatToI),
        ("to_s"@, NativeArity { min: 0, max: 0 }, NativeFn::FloatToS),
    ]
}

/// Bind the native instance methods of `Float` on the class object in `class_ref`.
pub fn register_methods(heap: &mut GcHeap<HeapObject>, class_ref: GcRef)
    requires
        old(heap).is_class(class_ref),
        old(heap).wf(),
    ensures
        final(heap)@ == old(heap)@.update(class_ref.0 as int, final(heap)@[class_ref.0 as int]),
        binds_all(
            old(heap)@[class_ref.0 as int],
            final(heap)@[class_ref.0 as int],
            false,
            float_methods(),
        ),
        final(heap).wf(),
{
    let mut table: Vec<NativeMethod> = Vec::new();
    table.push(native_method("ceil", NativeArity::exactly(0), NativeFn::FloatCeil));
    table.push(native_method("floor", NativeArity::exactly(0), NativeFn::FloatFloor));
    table.push(native_method("infinite?", NativeArity::exactly(0), NativeFn::FloatInfinite));
    table.push(native_method("nan?", NativeArity::exactly(0), NativeFn::FloatNan));
    table.push(native_method("round", NativeArity::exactly(0), NativeFn::FloatRound));
    table.push(native_method("sqrt", NativeArity::exactly(0), NativeFn::FloatSqrt));
    table.push(native_method("to_i", NativeArity::exactly(0), NativeFn::FloatToI));
    table.push(native_method("to_s", NativeArity::exactly(0), NativeFn::FloatToS));
    assert(method_entries(table@) =~= float_methods());
    define_native_table(heap, class_ref, table, false);
}

} // verus!
