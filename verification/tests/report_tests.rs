use sapphire::report::{error_report, is_input_complete};

#[test]
fn report_with_caret() {
    let r = error_report("unexpected token", 2, 3, "a = 1\nb = +\n", "f.spr");
    assert_eq!(
        r,
        vec![
            "error: unexpected token".to_string(),
            " --> f.spr:2:3".to_string(),
            "  |".to_string(),
            "2 | b = +".to_string(),
            "  |   ^".to_string(),
        ]
    );
}

#[test]
fn report_past_end_points_after_last_line() {
    let r = error_report("m", 5, 1, "x\nyy", "p");
    assert_eq!(r[1], " --> p:2:3");
    assert_eq!(r[3], "2 | yy");
    assert_eq!(r[4], "  |   ^");
}

#[test]
fn report_without_line_or_column() {
    assert_eq!(error_report("boom", 0, 0, "x", "p"), vec!["error: boom".to_string()]);
    let r = error_report("bad type", 1, 0, "x = 1", "p");
    assert_eq!(r, vec!["error: bad type".to_string(), " --> p:1".to_string(), "  |".to_string(), "1 | x = 1".to_string(), "  |".to_string()]);
    let empty = error_report("eof", 1, 1, "", "p");
    assert_eq!(empty, vec!["error: eof".to_string(), " --> p:1:1".to_string()]);
}

#[test]
fn console_input_completeness() {
    assert!(!is_input_complete("def f() {"));
    assert!(is_input_complete("f(1)"));
    assert!(is_input_complete("}"));
    assert!(!is_input_complete("[1, (2"));
}
