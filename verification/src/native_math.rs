//! The method table of the `Math` class; the methods themselves act on the
//! world outside the interpreter and are bound by the embedding program.
use vstd::prelude::*;

use crate::gc::{GcHeap, GcRef};
use crate::vm::{
    binds_all, define_native_table, method_entries, native_method, HeapObject, NativeArity,
    NativeFn, NativeMethod,
};

verus! {

/// The class methods that `register_class_methods` binds on the `Math` class, in binding order.
pub open spec fn math_methods() -> Seq<(Seq<char>, NativeArity, NativeFn)> {
    seq![
        ("sin"@, NativeArity { min: 1, max: 1 }, NativeFn::MathSin),
        ("cos"@, NativeArity { min: 1, max: 1 }, NativeFn::MathCos),
        ("asin"@, NativeArity { min: 1, max: 1 }, NativeFn::MathAsin),
        ("atan"@, NativeArity { min: 1, max: 1 }, NativeFn::MathAtan),
    ]
}

/// Bind the native class methods of `Math` on the class object in `class_ref`.
pub fn register_class_methods(heap: &mut GcHeap<HeapObject>, class_ref: GcRef)
    requires
        old(heap).is_class(class_ref),
        old(heap).wf(),
    ensures
        final(heap)@ == old(heap)@.update(class_ref.0 as int, final(heap)@[class_ref.0 as int]),
        binds_all(
            old(heap)@[class_ref.0 as int],
            final(heap)@[class_ref.0 as int],
            true,
            math_methods(),
        ),
        final(heap).wf(),
{
    let mut table: Vec<NativeMethod> = Vec::new();
    table.push(native_method("sin", NativeArity::exactly(1), NativeFn::MathSin));
    table.push(native_method("cos", NativeArity::exactly(1), NativeFn::MathCos));
    table.push(native_method("asin", NativeArity::exactly(1), NativeFn::MathAsin));
    table.push(native_method("atan", NativeArity::exactly(1), NativeFn::MathAtan));
    assert(method_entries(table@) =~= math_methods());
    define_native_table(heap, class_ref, table, true);
}

} // verus!
