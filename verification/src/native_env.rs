//! The method table of the `Env` class; the methods themselves act on the
//! world outside the interpreter and are bound by the embedding program.
use vstd::prelude::*;

use crate::gc::{GcHeap, GcRef};
use crate::vm::{
    binds_all, define_native_table, method_entries, native_method, HeapObject, NativeArity,
    NativeFn, NativeMethod,
};

verus! {

/// The class methods that `register_class_methods` binds on the `Env` class, in binding order.
pub open spec fn env_methods() -> Seq<(Seq<char>, NativeArity, NativeFn)> {
    seq![
        ("all"@, NativeArity { min: 0, max: 0 }, NativeFn::EnvAll),
        ("delete"@, NativeArity { min: 1, max: 1 }, NativeFn::EnvDelete),
        ("fetch"@, NativeArity { min: 1, max: 1 }, NativeFn::EnvFetch),
        ("get"@, NativeArity { min: 1, max: 1 }, NativeFn::EnvGet),
        ("set"@, NativeArity { min: 2, max: 2 }, NativeFn::EnvSet),
    ]
}

/// Bind the native class methods of `Env` on the class object in `class_ref`.
pub fn register_class_methods(heap: &mut GcHeap<HeapObject>, class_ref: GcRef)
    requires
        old(heap).is_class(class_ref),
        old(heap).wf(),
    ensures
        final(heap)@ == old(heap)@.update(class_ref.0 as int, final(heap)@[class_ref.0 as int]),
        binds_all(
            old(heap)@[class_ref.0 as int],
            final(heap)@[class_ref.0 as int],
            true,
            env_methods(),
        ),
        final(heap).wf(),
{
    let mut table: Vec<NativeMethod> = Vec::new();
    table.push(native_method("all", NativeArity::exactly(0), NativeFn::EnvAll));
    table.push(native_method("delete", NativeArity::exactly(1), NativeFn::EnvDelete));
    table.push(native_method("fetch", NativeArity::exactly(1), NativeFn::EnvFetch));
    table.push(native_method("get", NativeArity::exactly(1), NativeFn::EnvGet));
    table.push(native_method("set", NativeArity::exactly(2), NativeFn::EnvSet));
    assert(method_entries(table@) =~= env_methods());
    define_native_table(heap, class_ref, table, true);
}

} // verus!
