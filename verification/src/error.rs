//! Errors reported by the front end.
use vstd::prelude::*;

use crate::text::{nat_digits, u64_to_string};

verus! {

#[derive(Debug, Clone)]
pub enum SapphireError {
    ParseError { message: String, line: usize, column: usize },
    RuntimeError { message: String },
    TypeError { message: String, line: usize },
}

impl SapphireError {
    /// The error as it is shown to the user.
    pub fn display_string(&self) -> (s: String)
        ensures
            s@ == match *self {
                SapphireError::ParseError { message, line, column } => "[line "@ + nat_digits(
                    line as nat,
                ) + ":"@ + nat_digits(column as nat) + "] parse error: "@ + message@,
                SapphireError::RuntimeError { message } => "runtime error: "@ + message@,
                SapphireError::TypeError { message, line } => if line > 0 {
                    "[line "@ + nat_digits(line as nat) + "] type error: "@ + message@
                } else {
                    "type error: "@ + message@
                },
            },
    {
        match self {
            SapphireError::ParseError { message, line, column } => {
                let mut s = String::from_str("[line ");
                let l = u64_to_string(*line as u64);
                s.append(l.as_str());
                s.append(":");
                let c = u64_to_string(*column as u64);
                s.append(c.as_str());
                s.append("] parse error: ");
                s.append(message.as_str());
                s
            },
            SapphireError::RuntimeError { message } => {
                let mut s = String::from_str("runtime error: ");
                s.append(message.as_str());
                s
            },
            SapphireError::TypeError { message, line } => {
                if *line > 0 {
                    let mut s = String::from_str("[line ");
                    let l = u64_to_string(*line as u64);
                    s.append(l.as_str());
                    s.append("] type error: ");
                    s.append(message.as_str());
                    s
                } else {
                    let mut s = String::from_str("type error: ");
                    s.append(message.as_str());
                    s
                }
            },
        }
    }
}

} // verus!
