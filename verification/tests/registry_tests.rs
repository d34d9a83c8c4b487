use sapphire::gc::GcHeap;
use sapphire::native_list;
use sapphire::native_set;
use sapphire::native_string;
use sapphire::vm::{ClassObject, HeapObject, NativeArity, NativeFn};

fn class_heap(name: &str) -> (GcHeap<HeapObject>, sapphire::gc::GcRef) {
    let mut heap = GcHeap::new();
    let r = heap.allocate(HeapObject::Class(ClassObject {
        name: name.to_string(),
        methods: Vec::new(),
        class_methods: Vec::new(),
    }));
    (heap, r)
}

#[test]
fn string_methods_are_bound_in_order() {
    let (mut heap, r) = class_heap("String");
    native_string::register_methods(&mut heap, r);
    match heap.get(r) {
        HeapObject::Class(c) => {
            assert_eq!(c.name, "String");
            assert_eq!(c.methods.len(), 20);
            assert!(c.class_methods.is_empty());
            assert_eq!(c.methods[0].name, "bytes");
            assert_eq!(c.methods[0].native, NativeFn::StringBytes);
            let split = c.methods.iter().find(|m| m.name == "split").unwrap();
            assert_eq!(split.arity, NativeArity { min: 0, max: 1 });
            assert_eq!(split.native, NativeFn::StringSplit);
            let slice = c.methods.iter().find(|m| m.name == "slice").unwrap();
            assert_eq!(slice.arity, NativeArity::exactly(2));
        }
        _ => panic!("expected a class"),
    }
}

#[test]
fn set_class_and_instance_methods() {
    let (mut heap, r) = class_heap("Set");
    native_set::register_class_methods(&mut heap, r);
    native_set::register_methods(&mut heap, r);
    match heap.get(r) {
        HeapObject::Class(c) => {
            assert_eq!(c.class_methods.len(), 1);
            assert_eq!(c.class_methods[0].name, "new");
            assert_eq!(c.class_methods[0].arity, NativeArity { min: 0, max: 1 });
            assert_eq!(c.methods.len(), 13);
            assert_eq!(c.methods[12].native, NativeFn::SetUnion);
        }
        _ => panic!("expected a class"),
    }
}

#[test]
fn list_join_takes_any_number_of_arguments() {
    let (mut heap, r) = class_heap("List");
    native_list::register_methods(&mut heap, r);
    match heap.get(r) {
        HeapObject::Class(c) => {
            let join = c.methods.iter().find(|m| m.name == "join").unwrap();
            assert_eq!(join.arity, NativeArity::at_least(0));
            assert_eq!(join.native, NativeFn::ListJoin);
        }
        _ => panic!("expected a class"),
    }
}

#[test]
fn dedup_keeps_first_occurrences() {
    let out = sapphire::native_set::dedup_list(vec![
        sapphire::vm::VmValue::Int(1),
        sapphire::vm::VmValue::Int(2),
        sapphire::vm::VmValue::Int(1),
        sapphire::vm::VmValue::Int(3),
        sapphire::vm::VmValue::Int(2),
    ]);
    let ints: Vec<i64> = out
        .iter()
        .map(|v| match v {
            sapphire::vm::VmValue::Int(n) => *n,
            _ => panic!("expected an Int"),
        })
        .collect();
    assert_eq!(ints, vec![1, 2, 3]);
}
