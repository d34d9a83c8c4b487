//! Native methods of `Int`.
use vstd::prelude::*;
use vstd::arithmetic::power::pow;

use crate::gc::GcHeap;
use crate::text::{i64_to_string, int_decimal};
use crate::vm::{is_type_error, type_error, HeapObject, VmError, VmValue};

use crate::vm::{binds_all, define_native_table, method_entries, native_method, NativeArity, NativeFn, NativeMethod};
use crate::gc::GcRef;
verus! {

/// `i64::pow`: `x` raised to the power `exp`.  Overflow, which panics, is
/// excluded.
pub assume_specification[ <i64>::pow ](x: i64, exp: u32) -> (r: i64)
    requires
        i64::MIN <= pow(x as int, exp as nat) <= i64::MAX,
    ensures
        r == pow(x as int, exp as nat),
;

pub open spec fn int_value(recv: VmValue) -> i64 {
    recv->Int_0
}

fn int_n(recv: &VmValue) -> (n: i64)
    requires
        recv is Int,
    ensures
        n == int_value(*recv),
{
    match recv {
        VmValue::Int(n) => *n,
        _ => vstd::pervasive::unreached(),
    }
}

/// The receiver raised to a non-negative integer power (the exponent is
/// taken modulo 2^32, as the conversion to `u32` does).
pub fn int_pow(
    _heap: &mut GcHeap<HeapObject>,
    recv: &VmValue,
    args: &[VmValue],
    line: u32,
) -> (res: Result<VmValue, VmError>)
    requires
        recv is Int,
        args@.len() >= 1,
        args@[0] matches VmValue::Int(e) ==> (e >= 0 ==> i64::MIN <= pow(
            int_value(*recv) as int,
            (e as u32) as nat,
        ) <= i64::MAX),
    ensures
        *final(_heap) == *old(_heap),
        match args@[0] {
            VmValue::Int(e) if e >= 0 => res == Ok::<VmValue, VmError>(
                VmValue::Int(pow(int_value(*recv) as int, (e as u32) as nat) as i64),
            ),
            _ => res matches Err(e) && is_type_error(
                e,
                "Int.pow expects a non-negative integer exponent"@,
                line,
            ),
        },
{
    let n = int_n(recv);
    let e = match &args[0] {
        VmValue::Int(e) if *e >= 0 => *e as u32,
        _ => {
            return Err(type_error("Int.pow expects a non-negative integer exponent", line));
        },
    };
    Ok(VmValue::Int(n.pow(e)))
}

/// The decimal rendering of the receiver.
pub fn int_to_s(
    _heap: &mut GcHeap<HeapObject>,
    recv: &VmValue,
    _args: &[VmValue],
    _line: u32,
) -> (res: Result<VmValue, VmError>)
    requires
        recv is Int,
    ensures
        *final(_heap) == *old(_heap),
        res matches Ok(VmValue::Str(s)) && s@ == int_decimal(int_value(*recv) as int),
{
    let n = int_n(recv);
    Ok(VmValue::Str(i64_to_string(n)))
}


/// The instance methods that `register_methods` binds on the `Int` class, in binding order.
pub open spec fn int_methods() -> Seq<(Seq<char>, NativeArity, NativeFn)> {
    seq![
        ("pow"@, NativeArity { min: 1, max: 1 }, NativeFn::IntPow),
        ("to_f"@, NativeArity { min: 0, max: 0 }, NativeFn::IntToF),
        ("to_s"@, NativeArity { min: 0, max: 0 }, NativeFn::IntToS),
    ]
}

/// Bind the native instance methods of `Int` on the class object in `class_ref`.
pub fn register_methods(heap: &mut GcHeap<HeapObject>, class_ref: GcRef)
    requires
        old(heap).is_class(class_ref),
        old(heap).wf(),
    ensures
        final(heap)@ == old(heap)@.update(class_ref.0 as int, final(heap)@[class_ref.0 as int]),
        binds_all(
            old(heap)@[class_ref.0 as int],
            final(heap)@[class_ref.0 as int],
            false,
            int_methods(),
        ),
        final(heap).wf(),
{
    let mut table: Vec<NativeMethod> = Vec::new();
    table.push(native_method("pow", NativeArity::exactly(1), NativeFn::IntPow));
    table.push(native_method("to_f", NativeArity::exactly(0), NativeFn::IntToF));
    table.push(native_method("to_s", NativeArity::exactly(0), NativeFn::IntToS));
    assert(method_entries(table@) =~= int_methods());
    define_native_table(heap, class_ref, table, false);
}

} // verus!
