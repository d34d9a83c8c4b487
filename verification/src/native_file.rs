//! The method table of the `File` class; the methods themselves act on the
//! world outside the interpreter and are bound by the embedding program.
use vstd::prelude::*;

use crate::gc::{GcHeap, GcRef};
use crate::vm::{
    binds_all, define_native_table, method_entries, native_method, HeapObject, NativeArity,
    NativeFn, NativeMethod,
};

verus! {

/// The class methods that `register_class_methods` binds on the `File` class, in binding order.
pub open spec fn file_methods() -> Seq<(Seq<char>, NativeArity, NativeFn)> {
    seq![
        ("delete"@, NativeArity { min: 1, max: 1 }, NativeFn::FileDelete),
        ("exist?"@, NativeArity { min: 1, max: 1 }, NativeFn::FileExistQ),
        ("file?"@, NativeArity { min: 1, max: 1 }, NativeFn::FileFileQ),
        ("join"@, NativeArity { min: 0, max: usize::MAX }, NativeFn::FileJoin),
        ("mtime"@, NativeArity { min: 1, max: 1 }, NativeFn::FileMtime),
        ("read"@, NativeArity { min: 1, max: 1 }, NativeFn::FileRead),
        ("rename"@, NativeArity { min: 2, max: 2 }, NativeFn::FileRename),
        ("size"@, NativeArity { min: 1, max: 1 }, NativeFn::FileSize),
        ("write"@, NativeArity { min: 2, max: 2 }, NativeFn::FileWrite),
    ]
}

/// Bind the native class methods of `File` on the class object in `class_ref`.
pub fn register_class_methods(heap: &mut GcHeap<HeapObject>, class_ref: GcRef)
    requires
        old(heap).is_class(class_ref),
        old(heap).wf(),
    ensures
        final(heap)@ == old(heap)@.update(class_ref.0 as int, final(heap)@[class_ref.0 as int]),
        binds_all(
            old(heap)@[class_ref.0 as int],
            final(heap)@[class_ref.0 as int],
            true,
            file_methods(),
        ),
        final(heap).wf(),
{
    let mut table: Vec<NativeMethod> = Vec::new();
    table.push(native_method("delete", NativeArity::exactly(1), NativeFn::FileDelete));
    table.push(native_method("exist?", NativeArity::exactly(1), NativeFn::FileExistQ));
    table.push(native_method("file?", NativeArity::exactly(1), NativeFn::FileFileQ));
    table.push(native_method("join", NativeArity::at_least(0), NativeFn::FileJoin));
    table.push(native_method("mtime", NativeArity::exactly(1), NativeFn::FileMtime));
    table.push(native_method("read", NativeArity::exactly(1), NativeFn::FileRead));
    table.push(native_method("rename", NativeArity::exactly(2), NativeFn::FileRename));
    table.push(native_method("size", NativeArity::exactly(1), NativeFn::FileSize));
    table.push(native_method("write", NativeArity::exactly(2), NativeFn::FileWrite));
    assert(method_entries(table@) =~= file_methods());
    define_native_table(heap, class_ref, table, true);
}

} // verus!
