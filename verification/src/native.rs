//! Utilities on runtime values shared by the native methods.
use vstd::prelude::*;

use crate::text::{nat_digits, u64_to_string};
use crate::vm::{is_type_error, VmError, VmValue};

verus! {

/// `nil` and `false` are falsy; every other value is truthy.
pub open spec fn spec_is_falsy(v: VmValue) -> bool {
    v is Nil || v == VmValue::Bool(false)
}

pub fn is_falsy(v: &VmValue) -> (r: bool)
    ensures
        r == spec_is_falsy(*v),
{
    match v {
        VmValue::Nil => true,
        VmValue::Bool(b) => !*b,
        _ => false,
    }
}

/// The stdlib class that holds the compiled methods of a primitive value.
pub open spec fn spec_primitive_class_name(v: VmValue) -> Option<Seq<char>> {
    match v {
        VmValue::Int(_) => Some("Int"@),
        VmValue::Float(_) => Some("Float"@),
        VmValue::Str(_) => Some("String"@),
        VmValue::Bool(_) => Some("Bool"@),
        VmValue::Nil => Some("Nil"@),
        VmValue::List(_) => Some("List"@),
        VmValue::MapRef(_) => Some("Map"@),
        VmValue::SetRef(_) => Some("Set"@),
        _ => None,
    }
}

/// Return the stdlib class name for a primitive value, used to look up
/// compiled stdlib methods in the class registry.
pub fn primitive_class_name(val: &VmValue) -> (r: Option<&'static str>)
    ensures
        match (r, spec_primitive_class_name(*val)) {
            (Some(s), Some(t)) => s@ == t,
            (None, None) => true,
            _ => false,
        },
{
    match val {
        VmValue::Int(_) => Some("Int"),
        VmValue::Float(_) => Some("Float"),
        VmValue::Str(_) => Some("String"),
        VmValue::Bool(_) => Some("Bool"),
        VmValue::Nil => Some("Nil"),
        VmValue::List(_) => Some("List"),
        VmValue::MapRef(_) => Some("Map"),
        VmValue::SetRef(_) => Some("Set"),
        _ => None,
    }
}

/// The type name of a value as runtime type errors report it.
pub open spec fn spec_value_type_name(v: VmValue) -> Seq<char> {
    match v {
        VmValue::Int(_) => "Int"@,
        VmValue::Float(_) => "Float"@,
        VmValue::Str(_) => "String"@,
        VmValue::Bool(_) => "Bool"@,
        VmValue::Nil => "Nil"@,
        VmValue::List(_) => "List"@,
        VmValue::MapRef(_) => "Map"@,
        VmValue::SetRef(_) => "Set"@,
        VmValue::Range { .. } => "Range"@,
        VmValue::Instance { class_name, .. } => class_name@,
        VmValue::Class { name } => name@,
        VmValue::Function(_) => "Function"@,
        VmValue::Closure(_) => "Function"@,
        VmValue::ClassObj(_) => "Class"@,
    }
}

/// Return the type name of a value for use in runtime type-checking error messages.
pub fn value_type_name(val: &VmValue) -> (r: &str)
    ensures
        r@ == spec_value_type_name(*val),
{
    match val {
        VmValue::Int(_) => "Int",
        VmValue::Float(_) => "Float",
        VmValue::Str(_) => "String",
        VmValue::Bool(_) => "Bool",
        VmValue::Nil => "Nil",
        VmValue::List(_) => "List",
        VmValue::MapRef(_) => "Map",
        VmValue::SetRef(_) => "Set",
        VmValue::Range { .. } => "Range",
        VmValue::Instance { class_name, .. } => class_name.as_str(),
        VmValue::Class { name } => name.as_str(),
        VmValue::Function(_) => "Function",
        VmValue::Closure(_) => "Function",
        VmValue::ClassObj(_) => "Class",
    }
}

// ── Arguments of class methods ──────────────────────────────────────────────

/// The message for an argument of the wrong kind: `Class.method: what must be a string`.
pub open spec fn string_arg_message(class: Seq<char>, method: Seq<char>, what: Seq<char>) -> Seq<char> {
    class + "."@ + method + ": "@ + what + " must be a string"@
}

/// A string argument of `Class.method`, or the type error that names what it
/// should have been.
pub fn string_arg(class: &str, method: &str, what: &str, arg: &VmValue, line: u32) -> (r: Result<String, VmError>)
    ensures
        match *arg {
            VmValue::Str(s) => r matches Ok(t) && t@ == s@,
            _ => r matches Err(e) && is_type_error(e, string_arg_message(class@, method@, what@), line),
        },
{
    match arg {
        VmValue::Str(s) => Ok(s.clone()),
        _ => {
            let mut m = String::from_str(class);
            m.append(".");
            m.append(method);
            m.append(": ");
            m.append(what);
            m.append(" must be a string");
            Err(VmError::TypeError { message: m, line })
        },
    }
}

/// The message for a wrong number of arguments:
/// `Class.method expects N argument(s), got M`, the count written as given.
pub open spec fn arity_message(class: Seq<char>, method: Seq<char>, expected: Seq<char>, got: nat) -> Seq<char> {
    class + "."@ + method + " expects "@ + expected + ", got "@ + nat_digits(got)
}

/// The type error for a call of `Class.method` with `got` arguments where
/// `expected` (such as `1 argument`) were wanted.
pub fn arity_error(class: &str, method: &str, expected: &str, got: usize, line: u32) -> (e: VmError)
    ensures
        is_type_error(e, arity_message(class@, method@, expected@, got as nat), line),
{
    let mut m = String::from_str(class);
    m.append(".");
    m.append(method);
    m.append(" expects ");
    m.append(expected);
    m.append(", got ");
    m.append(u64_to_string(got as u64).as_str());
    VmError::TypeError { message: m, line }
}

} // verus!
