//! The `Process` class: which request a call makes, decided here; the
//! program that embeds the interpreter carries it out.
use crate::native::{arity_message};
use crate::text::{nat_digits, u64_to_string};
use crate::vm::{is_type_error, VmError, VmValue};
use vstd::prelude::*;

verus! {

/// What a `Process` class method asks of the operating system.
#[derive(Debug)]
pub enum ProcessAction {
    /// The script's own command-line arguments.
    Args,
    /// End the process with this code.
    Exit(i64),
    /// The process id.
    Pid,
    /// Run this command with `sh -c` and collect its output.
    Run(String),
}

/// What a `Process` class method gives back, before it becomes a value.
#[derive(Debug)]
pub enum ProcessResult {
    Primitive(VmValue),
    List(Vec<VmValue>),
    RunOutput { stdout: String, stderr: String, exit_code: i64 },
}

/// The error for a call that matches no form of a `Process` class method.
pub open spec fn process_call_message(name: Seq<char>, argc: nat) -> Seq<char> {
    if name == "args"@ || name == "pid"@ {
        arity_message("Process"@, name, "0 argument(s)"@, argc)
    } else if name == "run"@ {
        arity_message("Process"@, name, "1 argument(s)"@, argc)
    } else {
        "Process has no class method '"@ + name + "'"@
    }
}

/// The request of `Process.name(args)`, or the type error for a bad call.
pub open spec fn process_request(name: Seq<char>, args: Seq<VmValue>) -> Result<ProcessAction, Seq<char>> {
    if name == "args"@ && args.len() == 0 {
        Ok(ProcessAction::Args)
    } else if name == "exit"@ && args.len() == 0 {
        Ok(ProcessAction::Exit(0))
    } else if name == "exit"@ && args.len() == 1 {
        match args[0] {
            VmValue::Int(n) => Ok(ProcessAction::Exit(n)),
            _ => Err("Process.exit: exit code must be an integer"@),
        }
    } else if name == "exit"@ {
        Err("Process.exit expects 0 or 1 argument, got "@ + nat_digits(args.len()))
    } else if name == "pid"@ && args.len() == 0 {
        Ok(ProcessAction::Pid)
    } else if name == "run"@ && args.len() == 1 {
        match args[0] {
            VmValue::Str(c) => Ok(ProcessAction::Run(c)),
            _ => Err("Process.run: command must be a string"@),
        }
    } else {
        Err(process_call_message(name, args.len()))
    }
}

fn str_eq(a: &str, b: &str) -> (r: bool)
    ensures
        r == (a@ == b@),
{
    String::from_str(a) == String::from_str(b)
}

/// Decide what `Process.name(args)` asks for (see `process_request`).
pub fn process_action(name: &str, args: &[VmValue], line: u32) -> (r: Result<ProcessAction, VmError>)
    ensures
        match process_request(name@, args@) {
            Ok(a) => match a {
                ProcessAction::Run(c) => r matches Ok(ProcessAction::Run(d)) && d@ == c@,
                _ => r == Ok::<ProcessAction, VmError>(a),
            },
            Err(m) => r matches Err(e) && is_type_error(e, m, line),
        },
{
    proof {
        reveal_strlit("args");
        reveal_strlit("exit");
        reveal_strlit("pid");
        reveal_strlit("run");
        assert("run"@ != "pid"@) by {
            assert("run"@[0] != "pid"@[0]);
        }
    }
    let n = args.len();
    if str_eq(name, "args") && n == 0 {
        Ok(ProcessAction::Args)
    } else if str_eq(name, "exit") && n == 0 {
        Ok(ProcessAction::Exit(0))
    } else if str_eq(name, "exit") && n == 1 {
        match &args[0] {
            VmValue::Int(v) => Ok(ProcessAction::Exit(*v)),
            _ => Err(VmError::TypeError { message: String::from_str("Process.exit: exit code must be an integer"), line }),
        }
    } else if str_eq(name, "exit") {
        let mut m = String::from_str("Process.exit expects 0 or 1 argument, got ");
        m.append(u64_to_string(n as u64).as_str());
        Err(VmError::TypeError { message: m, line })
    } else if str_eq(name, "pid") && n == 0 {
        Ok(ProcessAction::Pid)
    } else if str_eq(name, "run") && n == 1 {
        match &args[0] {
            VmValue::Str(c) => Ok(ProcessAction::Run(c.clone())),
            _ => Err(VmError::TypeError { message: String::from_str("Process.run: command must be a string"), line }),
        }
    } else if str_eq(name, "args") || str_eq(name, "pid") || str_eq(name, "run") {
        let expected = if str_eq(name, "run") {
            "1 argument(s)"
        } else {
            "0 argument(s)"
        };
        let mut m = String::from_str("Process");
        m.append(".");
        m.append(name);
        m.append(" expects ");
        m.append(expected);
        m.append(", got ");
        m.append(u64_to_string(n as u64).as_str());
        Err(VmError::TypeError { message: m, line })
    } else {
        let mut m = String::from_str("Process has no class method '");
        m.append(name);
        m.append("'");
        Err(VmError::TypeError { message: m, line })
    }
}

} // verus!
