//! What the `Socket` class reads of its instances; connecting, reading and
//! writing are network I/O and live outside the library.
use crate::typechecker::find_key;
use crate::vm::{VmError, VmValue};
use vstd::prelude::*;

verus! {

/// The `fd` field of a `Socket` instance, which must be an integer.
pub fn extract_fd(fields: &Vec<(String, VmValue)>, line: u32) -> (r: Result<i64, VmError>)
    ensures
        match crate::typechecker::lookup(fields@, "fd"@) {
            Some(VmValue::Int(n)) => r == Ok::<i64, VmError>(n),
            _ => r matches Err(VmError::TypeError { message, line: l }) && l == line && message@
                == "socket instance has invalid fd"@,
        },
{
    let found = find_key(fields, "fd");
    proof {
        crate::typechecker::lemma_key_index_bounds(fields@, "fd"@);
    }
    match found {
        Some(i) => match &fields[i].1 {
            VmValue::Int(n) => Ok(*n),
            _ => Err(VmError::TypeError { message: String::from_str("socket instance has invalid fd"), line }),
        },
        None => Err(VmError::TypeError { message: String::from_str("socket instance has invalid fd"), line }),
    }
}

} // verus!
