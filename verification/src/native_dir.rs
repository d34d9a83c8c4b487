//! The method table of the `Dir` class; the methods themselves act on the
//! world outside the interpreter and are bound by the embedding program.
use vstd::prelude::*;

use crate::gc::{GcHeap, GcRef};
use crate::vm::{
    binds_all, define_native_table, method_entries, native_method, HeapObject, NativeArity,
    NativeFn, NativeMethod,
};

verus! {

/// The class methods that `register_class_methods` binds on the `Dir` class, in binding order.
pub open spec fn dir_methods() -> Seq<(Seq<char>, NativeArity, NativeFn)> {
    seq![
        ("children"@, NativeArity { min: 1, max: 1 }, NativeFn::DirChildren),
        ("delete"@, NativeArity { min: 1, max: 1 }, NativeFn::DirDelete),
        ("exist?"@, NativeArity { min: 1, max: 1 }, NativeFn::DirExistQ),
        ("mkdir"@, NativeArity { min: 1, max: 1 }, NativeFn::DirMkdir),
        ("pwd"@, NativeArity { min: 0, max: 0 }, NativeFn::DirPwd),
    ]
}

/// Bind the native class methods of `Dir` on the class object in `class_ref`.
pub fn register_class_methods(heap: &mut GcHeap<HeapObject>, class_ref: GcRef)
    requires
        old(heap).is_class(class_ref),
        old(heap).wf(),
    ensures
        final(heap)@ == old(heap)@.update(class_ref.0 as int, final(heap)@[class_ref.0 as int]),
        binds_all(
            old(heap)@[class_ref.0 as int],
            final(heap)@[class_ref.0 as int],
            true,
            dir_methods(),
        ),
        final(heap).wf(),
{
    let mut table: Vec<NativeMethod> = Vec::new();
    table.push(native_method("children", NativeArity::exactly(1), NativeFn::DirChildren));
    table.push(native_method("delete", NativeArity::exactly(1), NativeFn::DirDelete));
    table.push(native_method("exist?", NativeArity::exactly(1), NativeFn::DirExistQ));
    table.push(native_method("mkdir", NativeArity::exactly(1), NativeFn::DirMkdir));
    table.push(native_method("pwd", NativeArity::exactly(0), NativeFn::DirPwd));
    assert(method_entries(table@) =~= dir_methods());
    define_native_table(heap, class_ref, table, true);
}

} // verus!
