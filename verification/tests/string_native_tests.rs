use sapphire::gc::GcHeap;
use sapphire::native_string::{
    string_bytes, string_chars, string_chomp, string_downcase, string_empty_q, string_ends_with_q,
    string_include_q, string_lines, string_replace, string_replace_all, string_reverse, string_size,
    string_slice, string_split, string_starts_with_q, string_to_i, string_to_s, string_trim,
    string_upcase,
};
use sapphire::vm::{HeapObject, VmError, VmValue};

fn s(x: &str) -> VmValue {
    VmValue::Str(x.to_string())
}

fn str_of(v: Result<VmValue, VmError>) -> String {
    match v {
        Ok(VmValue::Str(s)) => s,
        other => panic!("expected a string, got {:?}", other),
    }
}

fn strs_of(heap: &GcHeap<HeapObject>, v: Result<VmValue, VmError>) -> Vec<String> {
    match v {
        Ok(VmValue::List(r)) => heap
            .get_list(r)
            .iter()
            .map(|x| match x {
                VmValue::Str(s) => s.clone(),
                other => panic!("expected a string element, got {:?}", other),
            })
            .collect(),
        other => panic!("expected a list, got {:?}", other),
    }
}

fn int_of(v: Result<VmValue, VmError>) -> i64 {
    match v {
        Ok(VmValue::Int(n)) => n,
        other => panic!("expected an int, got {:?}", other),
    }
}

fn bool_of(v: Result<VmValue, VmError>) -> bool {
    match v {
        Ok(VmValue::Bool(b)) => b,
        other => panic!("expected a bool, got {:?}", other),
    }
}

fn type_error_of(v: Result<VmValue, VmError>) -> (String, u32) {
    match v {
        Err(VmError::TypeError { message, line }) => (message, line),
        other => panic!("expected a type error, got {:?}", other),
    }
}

#[test]
fn split_on_whitespace_runs() {
    let mut heap = GcHeap::new();
    let r = string_split(&mut heap, &s("  a b\t\n c  "), &[], 1);
    assert_eq!(strs_of(&heap, r), vec!["a", "b", "c"]);
}

#[test]
fn split_on_separator_keeps_empty_pieces() {
    let mut heap = GcHeap::new();
    let r = string_split(&mut heap, &s("a,,b,"), &[s(",")], 1);
    assert_eq!(strs_of(&heap, r), vec!["a", "", "b", ""]);
    let r = string_split(&mut heap, &s("one--two"), &[s("--")], 1);
    assert_eq!(strs_of(&heap, r), vec!["one", "two"]);
}

#[test]
fn split_on_empty_separator() {
    let mut heap = GcHeap::new();
    let r = string_split(&mut heap, &s("ab"), &[s("")], 1);
    assert_eq!(strs_of(&heap, r), vec!["", "a", "b", ""]);
}

#[test]
fn split_rejects_non_string_separator() {
    let mut heap = GcHeap::new();
    let r = string_split(&mut heap, &s("ab"), &[VmValue::Int(1)], 9);
    assert_eq!(type_error_of(r), ("split expects a String delimiter".to_string(), 9));
}

#[test]
fn lines_strip_line_endings() {
    let mut heap = GcHeap::new();
    let r = string_lines(&mut heap, &s("a\r\nb\n\nc"), &[], 1);
    assert_eq!(strs_of(&heap, r), vec!["a", "b", "", "c"]);
    let r = string_lines(&mut heap, &s("x\n"), &[], 1);
    assert_eq!(strs_of(&heap, r), vec!["x"]);
    let r = string_lines(&mut heap, &s(""), &[], 1);
    assert_eq!(strs_of(&heap, r), Vec::<String>::new());
}

#[test]
fn chars_and_bytes() {
    let mut heap = GcHeap::new();
    let r = string_chars(&mut heap, &s("hé"), &[], 1);
    assert_eq!(strs_of(&heap, r), vec!["h", "é"]);
    let r = string_bytes(&mut heap, &s("hé"), &[], 1);
    match r {
        Ok(VmValue::List(l)) => {
            let bytes: Vec<i64> = heap
                .get_list(l)
                .iter()
                .map(|v| match v {
                    VmValue::Int(n) => *n,
                    _ => panic!("expected ints"),
                })
                .collect();
            assert_eq!(bytes, vec![104, 195, 169]);
        }
        other => panic!("expected a list, got {:?}", other),
    }
}

#[test]
fn chomp_trim_reverse() {
    let mut heap = GcHeap::new();
    assert_eq!(str_of(string_chomp(&mut heap, &s("hi\n\n"), &[], 1)), "hi");
    assert_eq!(str_of(string_chomp(&mut heap, &s("hi\r\n"), &[], 1)), "hi\r");
    assert_eq!(str_of(string_trim(&mut heap, &s(" \t x y \n"), &[], 1)), "x y");
    assert_eq!(str_of(string_trim(&mut heap, &s("\u{3000}z\u{a0}"), &[], 1)), "z");
    assert_eq!(str_of(string_reverse(&mut heap, &s("abc"), &[], 1)), "cba");
    assert_eq!(str_of(string_to_s(&mut heap, &s("same"), &[], 1)), "same");
}

#[test]
fn case_mapping() {
    let mut heap = GcHeap::new();
    assert_eq!(str_of(string_downcase(&mut heap, &s("HeLLo"), &[], 1)), "hello");
    assert_eq!(str_of(string_upcase(&mut heap, &s("straße"), &[], 1)), "STRASSE");
}

#[test]
fn replace_first_and_all() {
    let mut heap = GcHeap::new();
    assert_eq!(str_of(string_replace(&mut heap, &s("aaa"), &[s("a"), s("b")], 1)), "baa");
    assert_eq!(str_of(string_replace(&mut heap, &s("abc"), &[s("x"), s("y")], 1)), "abc");
    assert_eq!(str_of(string_replace(&mut heap, &s("abc"), &[s(""), s("-")], 1)), "-abc");
    assert_eq!(str_of(string_replace_all(&mut heap, &s("aaa"), &[s("a"), s("bb")], 1)), "bbbbbb");
    assert_eq!(str_of(string_replace_all(&mut heap, &s("aaaa"), &[s("aa"), s("b")], 1)), "bb");
    assert_eq!(str_of(string_replace_all(&mut heap, &s("ab"), &[s(""), s("-")], 1)), "-a-b-");
    let r = string_replace_all(&mut heap, &s("ab"), &[s("a"), VmValue::Nil], 4);
    assert_eq!(type_error_of(r), ("replace_all expects two Strings".to_string(), 4));
    let r = string_replace(&mut heap, &s("ab"), &[VmValue::Nil, s("a")], 5);
    assert_eq!(type_error_of(r), ("replace expects two Strings".to_string(), 5));
}

#[test]
fn slice_windows() {
    let mut heap = GcHeap::new();
    let h = s("hello");
    let sl = |heap: &mut GcHeap<HeapObject>, a: i64, b: i64| {
        str_of(string_slice(heap, &h, &[VmValue::Int(a), VmValue::Int(b)], 1))
    };
    assert_eq!(sl(&mut heap, 1, 3), "ell");
    assert_eq!(sl(&mut heap, -3, 2), "ll");
    assert_eq!(sl(&mut heap, -10, 2), "he");
    assert_eq!(sl(&mut heap, 1, 100), "ello");
    assert_eq!(sl(&mut heap, 0, -1), "hello");
    assert_eq!(sl(&mut heap, 5, 1), "");
    let r = string_slice(&mut heap, &h, &[s("1"), VmValue::Int(1)], 3);
    assert_eq!(type_error_of(r), ("slice expects (Int, Int)".to_string(), 3));
}

#[test]
fn to_i_parses_trimmed_integers() {
    let mut heap = GcHeap::new();
    assert_eq!(int_of(string_to_i(&mut heap, &s(" 42 "), &[], 1)), 42);
    assert_eq!(int_of(string_to_i(&mut heap, &s("-7"), &[], 1)), -7);
    assert_eq!(int_of(string_to_i(&mut heap, &s("+5"), &[], 1)), 5);
    assert_eq!(int_of(string_to_i(&mut heap, &s("abc"), &[], 1)), 0);
    assert_eq!(int_of(string_to_i(&mut heap, &s("12x"), &[], 1)), 0);
    assert_eq!(int_of(string_to_i(&mut heap, &s("-"), &[], 1)), 0);
    assert_eq!(int_of(string_to_i(&mut heap, &s(""), &[], 1)), 0);
    assert_eq!(int_of(string_to_i(&mut heap, &s("9223372036854775807"), &[], 1)), i64::MAX);
    assert_eq!(int_of(string_to_i(&mut heap, &s("9223372036854775808"), &[], 1)), 0);
    assert_eq!(int_of(string_to_i(&mut heap, &s("-9223372036854775808"), &[], 1)), i64::MIN);
    assert_eq!(int_of(string_to_i(&mut heap, &s("-9223372036854775809"), &[], 1)), 0);
}

#[test]
fn predicates() {
    let mut heap = GcHeap::new();
    let h = s("hello");
    assert!(bool_of(string_starts_with_q(&mut heap, &h, &[s("he")], 1)));
    assert!(!bool_of(string_starts_with_q(&mut heap, &h, &[s("lo")], 1)));
    assert!(bool_of(string_ends_with_q(&mut heap, &h, &[s("lo")], 1)));
    assert!(!bool_of(string_ends_with_q(&mut heap, &h, &[s("hello!")], 1)));
    assert!(bool_of(string_include_q(&mut heap, &h, &[s("ll")], 1)));
    assert!(bool_of(string_include_q(&mut heap, &h, &[s("")], 1)));
    assert!(!bool_of(string_include_q(&mut heap, &h, &[s("lol")], 1)));
    assert!(bool_of(string_empty_q(&mut heap, &s(""), &[], 1)));
    assert!(!bool_of(string_empty_q(&mut heap, &h, &[], 1)));
    assert_eq!(int_of(string_size(&mut heap, &s("héllo"), &[], 1)), 5);
    let r = string_ends_with_q(&mut heap, &h, &[VmValue::Int(1)], 2);
    assert_eq!(type_error_of(r), ("ends_with? expects a String".to_string(), 2));
    let r = string_starts_with_q(&mut heap, &h, &[VmValue::Int(1)], 2);
    assert_eq!(type_error_of(r), ("starts_with? expects a String".to_string(), 2));
    let r = string_include_q(&mut heap, &h, &[VmValue::Int(1)], 2);
    assert_eq!(type_error_of(r), ("include? expects a String".to_string(), 2));
}
