use sapphire::gc::GcHeap;
use sapphire::native_json::{json_parse_input, json_to_vm, Json};
use sapphire::vm::{HeapObject, VmError, VmValue};

#[test]
fn json_document_becomes_values() {
    let mut heap: GcHeap<HeapObject> = GcHeap::new();
    let doc = Json::Object(vec![
        ("a".to_string(), Json::Int(1)),
        ("b".to_string(), Json::Array(vec![Json::Null, Json::Bool(true), Json::Str("x".to_string())])),
    ]);
    let v = json_to_vm(&mut heap, &doc);
    let r = match v {
        VmValue::MapRef(r) => r,
        _ => panic!("expected a map"),
    };
    let entries = heap.get_map(r);
    assert_eq!(entries.len(), 2);
    assert_eq!(entries[0].0, "a");
    assert!(matches!(entries[0].1, VmValue::Int(1)));
    match &entries[1].1 {
        VmValue::List(l) => {
            let items = heap.get_list(*l);
            assert_eq!(items.len(), 3);
            assert!(matches!(items[0], VmValue::Nil));
            assert!(matches!(items[1], VmValue::Bool(true)));
            assert!(matches!(&items[2], VmValue::Str(s) if s == "x"));
        }
        _ => panic!("expected a list"),
    }
}

#[test]
fn json_parse_argument_checks() {
    assert_eq!(json_parse_input(&[VmValue::Str("[1]".to_string())], 1).unwrap(), "[1]");
    match json_parse_input(&[VmValue::Int(1)], 4) {
        Err(VmError::TypeError { message, line }) => {
            assert_eq!(message, "JSON.parse: input must be a string");
            assert_eq!(line, 4);
        }
        _ => panic!("expected a type error"),
    }
    match json_parse_input(&[], 4) {
        Err(VmError::TypeError { message, .. }) => assert_eq!(message, "JSON.parse expects 1 argument, got 0"),
        _ => panic!("expected a type error"),
    }
}
