use sapphire::native_process::{process_action, ProcessAction};
use sapphire::strops::chomp_line;
use sapphire::vm::{VmError, VmValue};

fn message(r: Result<ProcessAction, VmError>) -> String {
    match r {
        Err(VmError::TypeError { message, .. }) => message,
        other => panic!("expected a type error, got {:?}", other),
    }
}

#[test]
fn process_requests() {
    assert!(matches!(process_action("args", &[], 1), Ok(ProcessAction::Args)));
    assert!(matches!(process_action("exit", &[], 1), Ok(ProcessAction::Exit(0))));
    assert!(matches!(process_action("exit", &[VmValue::Int(3)], 1), Ok(ProcessAction::Exit(3))));
    assert!(matches!(process_action("pid", &[], 1), Ok(ProcessAction::Pid)));
    match process_action("run", &[VmValue::Str("ls".to_string())], 1) {
        Ok(ProcessAction::Run(c)) => assert_eq!(c, "ls"),
        _ => panic!("expected a run request"),
    }
}

#[test]
fn process_errors() {
    assert_eq!(message(process_action("exit", &[VmValue::Nil], 1)), "Process.exit: exit code must be an integer");
    assert_eq!(message(process_action("exit", &[VmValue::Nil, VmValue::Nil], 1)), "Process.exit expects 0 or 1 argument, got 2");
    assert_eq!(message(process_action("pid", &[VmValue::Nil], 1)), "Process.pid expects 0 argument(s), got 1");
    assert_eq!(message(process_action("run", &[], 1)), "Process.run expects 1 argument(s), got 0");
    assert_eq!(message(process_action("run", &[VmValue::Int(1)], 1)), "Process.run: command must be a string");
    assert_eq!(message(process_action("fork", &[], 1)), "Process has no class method 'fork'");
}

#[test]
fn chomp_line_endings() {
    assert_eq!(chomp_line("abc\r\n"), "abc");
    assert_eq!(chomp_line("abc\n"), "abc");
    assert_eq!(chomp_line("abc\r"), "abc\r");
    assert_eq!(chomp_line("abc"), "abc");
}
