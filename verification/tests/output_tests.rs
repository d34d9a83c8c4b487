use sapphire::output::Sink;

#[test]
fn sink_prints_when_not_buffering() {
    let mut s = Sink::new();
    assert_eq!(s.emit_line("hi"), Some("hi\n".to_string()));
    assert_eq!(s.emit_raw("x"), Some("x".to_string()));
    assert_eq!(s.take(), "");
}

#[test]
fn sink_collects_while_buffering() {
    let mut s = Sink::new();
    s.activate();
    assert_eq!(s.emit_line("a"), None);
    assert_eq!(s.emit_raw("b"), None);
    assert_eq!(s.emit_line("c"), None);
    assert_eq!(s.take(), "a\nbc\n");
    assert_eq!(s.emit_line("after"), Some("after\n".to_string()));
}
