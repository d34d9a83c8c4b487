use sapphire::native_regex::{build_regex, extract_id, regex_match_bool, regex_replace, regex_replace_all, regex_scan};
use sapphire::native_socket::extract_fd;
use sapphire::vm::{VmError, VmValue};

#[test]
fn build_regex_valid_and_case_flag() {
    let re = build_regex("ab+c", false, 1).unwrap();
    assert!(regex_match_bool(&re, "xxabbbcyy"));
    assert!(!regex_match_bool(&re, "ABBC"));
    let re_i = build_regex("ab+c", true, 1).unwrap();
    assert!(regex_match_bool(&re_i, "ABBC"));
}

#[test]
fn build_regex_invalid_pattern() {
    match build_regex("(unclosed", false, 7) {
        Err(VmError::TypeError { message, line }) => {
            assert_eq!(line, 7);
            assert!(message.starts_with("Invalid regex pattern: "));
            assert!(message.len() > "Invalid regex pattern: ".len());
        }
        _ => panic!("expected a type error"),
    }
}

#[test]
fn regex_scan_and_replace() {
    let re = build_regex("[0-9]+", false, 1).unwrap();
    assert_eq!(regex_scan(&re, "a1b22c333"), vec!["1".to_string(), "22".to_string(), "333".to_string()]);
    assert_eq!(regex_replace(&re, "a1b22", "#"), "a#b22");
    assert_eq!(regex_replace_all(&re, "a1b22", "#"), "a#b#");
}

#[test]
fn extract_id_and_fd() {
    let fields = vec![("name".to_string(), VmValue::Nil), ("id".to_string(), VmValue::Int(4))];
    assert!(matches!(extract_id(&fields, 2), Ok(4)));
    let bad = vec![("id".to_string(), VmValue::Bool(true))];
    match extract_id(&bad, 3) {
        Err(VmError::TypeError { message, line }) => {
            assert_eq!(message, "regex instance has invalid id");
            assert_eq!(line, 3);
        }
        _ => panic!("expected a type error"),
    }
    let sock = vec![("fd".to_string(), VmValue::Int(9))];
    assert!(matches!(extract_fd(&sock, 1), Ok(9)));
    match extract_fd(&fields, 5) {
        Err(VmError::TypeError { message, .. }) => assert_eq!(message, "socket instance has invalid fd"),
        _ => panic!("expected a type error"),
    }
}
