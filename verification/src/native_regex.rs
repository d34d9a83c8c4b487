//! Regular expressions for the `Regex` class, by the `regex` crate.
use crate::typechecker::find_key;
use crate::vm::{VmError, VmValue};
use vstd::prelude::*;

verus! {

#[verifier::external_type_specification]
#[verifier::external_body]
pub struct ExRegex(regex::Regex);

#[verifier::external_type_specification]
#[verifier::external_body]
pub struct ExRegexError(regex::Error);

/// Whether the `regex` crate accepts `pattern` with the given case flag.
pub uninterp spec fn pattern_compiles(pattern: Seq<char>, ignore_case: bool) -> bool;

/// Whether the pattern, compiled with the case flag, matches somewhere in
/// `text` (`Regex::is_match`).
pub uninterp spec fn regex_is_match(pattern: Seq<char>, ignore_case: bool, text: Seq<char>) -> bool;

/// The successive non-overlapping matches of the pattern in `text`
/// (`Regex::find_iter`).
pub uninterp spec fn regex_matches(pattern: Seq<char>, ignore_case: bool, text: Seq<char>) -> Seq<Seq<char>>;

/// `text` with the first match of the pattern replaced (`Regex::replace`).
pub uninterp spec fn regex_replaced_first(pattern: Seq<char>, ignore_case: bool, text: Seq<char>, replacement: Seq<char>) -> Seq<char>;

/// `text` with every match of the pattern replaced (`Regex::replace_all`).
pub uninterp spec fn regex_replaced_all(pattern: Seq<char>, ignore_case: bool, text: Seq<char>, replacement: Seq<char>) -> Seq<char>;

/// A compiled regular expression together with the pattern and case flag it
/// was compiled from.  Only `build_regex` makes one, from what it compiles,
/// so the compiled form always belongs to the pattern and flag it holds.
pub struct CompiledRegex {
    re: regex::Regex,
    pattern: String,
    ignore_case: bool,
}

impl View for CompiledRegex {
    type V = (Seq<char>, bool);

    /// The pattern and the case flag.
    closed spec fn view(&self) -> (Seq<char>, bool) {
        (self.pattern@, self.ignore_case)
    }
}

/// `regex::RegexBuilder::new(pattern).case_insensitive(ignore_case).build()`:
/// whether it succeeds depends on the pattern and the flag alone.
#[verifier::external_body]
fn compile_pattern(pattern: &str, ignore_case: bool) -> (r: Result<regex::Regex, regex::Error>)
    ensures
        r is Ok == pattern_compiles(pattern@, ignore_case),
{
    let mut builder = regex::RegexBuilder::new(pattern);
    builder.case_insensitive(ignore_case);
    builder.build()
}

/// `<regex::Error as Display>::fmt`: the crate's description of a bad
/// pattern.  Its wording is the crate's own and is not stated here.
#[verifier::external_body]
fn regex_error_text(e: &regex::Error) -> (r: String) {
    format!("{}", e)
}

/// The message of a pattern that does not compile: the prefix, then the
/// crate's description.
pub open spec fn invalid_pattern_message(m: Seq<char>) -> bool {
    m.len() >= 23 && m.take(23) == "Invalid regex pattern: "@
}

/// Compile `pattern`, ignoring case if asked.  It succeeds exactly when the
/// `regex` crate accepts the pattern; otherwise the error is a type error at
/// `line` whose message starts with `Invalid regex pattern: `.
pub fn build_regex(pattern: &str, ignore_case: bool, line: u32) -> (r: Result<CompiledRegex, VmError>)
    ensures
        r is Ok == pattern_compiles(pattern@, ignore_case),
        r matches Ok(c) ==> c@ == (pattern@, ignore_case),
        r matches Err(e) ==> (e matches VmError::TypeError { message, line: l } && l == line
            && invalid_pattern_message(message@)),
{
    match compile_pattern(pattern, ignore_case) {
        Ok(re) => Ok(CompiledRegex { re, pattern: String::from_str(pattern), ignore_case }),
        Err(e) => {
            let mut message = String::from_str("Invalid regex pattern: ");
            proof {
                reveal_strlit("Invalid regex pattern: ");
            }
            let ghost prefix = message@;
            message.append(regex_error_text(&e).as_str());
            assert(message@.take(23) =~= prefix);
            Err(VmError::TypeError { message, line })
        },
    }
}

/// The `id` field of a `Regex` instance, which must be an integer.
pub fn extract_id(fields: &Vec<(String, VmValue)>, line: u32) -> (r: Result<i64, VmError>)
    ensures
        match crate::typechecker::lookup(fields@, "id"@) {
            Some(VmValue::Int(n)) => r == Ok::<i64, VmError>(n),
            _ => r matches Err(VmError::TypeError { message, line: l }) && l == line && message@
                == "regex instance has invalid id"@,
        },
{
    let found = find_key(fields, "id");
    proof {
        crate::typechecker::lemma_key_index_bounds(fields@, "id"@);
    }
    match found {
        Some(i) => match &fields[i].1 {
            VmValue::Int(n) => Ok(*n),
            _ => Err(VmError::TypeError { message: String::from_str("regex instance has invalid id"), line }),
        },
        None => Err(VmError::TypeError { message: String::from_str("regex instance has invalid id"), line }),
    }
}

/// `regex::Regex::is_match` on the compiled pattern: the answer depends on
/// the pattern, the case flag and the text alone, and is named
/// `regex_is_match`.
#[verifier::external_body]
pub fn regex_match_bool(re: &CompiledRegex, text: &str) -> (r: bool)
    ensures
        r == regex_is_match(re@.0, re@.1, text@),
{
    re.re.is_match(text)
}

/// `regex::Regex::find_iter`, each match taken as a string: the matches,
/// named `regex_matches`, each a piece of the text as the crate documents.
#[verifier::external_body]
pub fn regex_scan(re: &CompiledRegex, text: &str) -> (r: Vec<String>)
    ensures
        r@.map_values(|s: String| s@) == regex_matches(re@.0, re@.1, text@),
        forall|i: int|
            0 <= i < r@.len() ==> exists|a: int, b: int|
                0 <= a <= b <= text@.len() && (#[trigger] r@[i])@ == text@.subrange(a, b),
{
    re.re.find_iter(text).map(|m| m.as_str().to_string()).collect()
}

/// `regex::Regex::replace`: the text with its first match replaced, named
/// `regex_replaced_first`.
#[verifier::external_body]
pub fn regex_replace(re: &CompiledRegex, text: &str, replacement: &str) -> (r: String)
    ensures
        r@ == regex_replaced_first(re@.0, re@.1, text@, replacement@),
{
    re.re.replace(text, replacement).to_string()
}

/// `regex::Regex::replace_all`: the text with every match replaced, named
/// `regex_replaced_all`.
#[verifier::external_body]
pub fn regex_replace_all(re: &CompiledRegex, text: &str, replacement: &str) -> (r: String)
    ensures
        r@ == regex_replaced_all(re@.0, re@.1, text@, replacement@),
{
    re.re.replace_all(text, replacement).to_string()
}

} // verus!
