//! The method table of the `IO` class; the methods themselves act on the
//! world outside the interpreter and are bound by the embedding program.
use vstd::prelude::*;

use crate::gc::{GcHeap, GcRef};
use crate::vm::{
    binds_all, define_native_table, method_entries, native_method, HeapObject, NativeArity,
    NativeFn, NativeMethod,
};

verus! {

/// The class methods that `register_class_methods` binds on the `IO` class, in binding order.
pub open spec fn io_methods() -> Seq<(Seq<char>, NativeArity, NativeFn)> {
    seq![
        ("puts"@, NativeArity { min: 1, max: 1 }, NativeFn::IoPuts),
        ("print"@, NativeArity { min: 1, max: 1 }, NativeFn::IoPrint),
        ("gets"@, NativeArity { min: 0, max: 0 }, NativeFn::IoGets),
    ]
}

/// Bind the native class methods of `IO` on the class object in `class_ref`.
pub fn register_class_methods(heap: &mut GcHeap<HeapObject>, class_ref: GcRef)
    requires
        old(heap).is_class(class_ref),
        old(heap).wf(),
    ensures
        final(heap)@ == old(heap)@.update(class_ref.0 as int, final(heap)@[class_ref.0 as int]),
        binds_all(
            old(heap)@[class_ref.0 as int],
            final(heap)@[class_ref.0 as int],
            true,
            io_methods(),
        ),
        final(heap).wf(),
{
    let mut table: Vec<NativeMethod> = Vec::new();
    table.push(native_method("puts", NativeArity::exactly(1), NativeFn::IoPuts));
    table.push(native_method("print", NativeArity::exactly(1), NativeFn::IoPrint));
    table.push(native_method("gets", NativeArity::exactly(0), NativeFn::IoGets));
    assert(method_entries(table@) =~= io_methods());
    define_native_table(heap, class_ref, table, true);
}

} // verus!
