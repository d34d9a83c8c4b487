//! Native methods of `String`.
use vstd::prelude::*;
use vstd::utf8::encode_utf8;

use crate::gc::{GcHeap, GcRef};
use crate::strops::{
    chomp_chars, contains_chars, contains_seq, ends_with_chars, is_prefix, is_suffix, lines_chars,
    lines_seq, parse_i64, parse_i64_chars, piece, replace_all_chars, replace_all_seq,
    replace_empty, replace_empty_chars, replace_first, replace_first_chars, reverse_chars,
    singletons, split_chars, split_empty, split_empty_chars, split_seq, split_str,
    starts_with_chars, strings_are, trim_chars, trim_end_newlines, trim_ws, words, words_chars,
};
use crate::text::str_to_chars;
use crate::vm::{is_type_error, type_error, HeapObject, ObjView, VmError, VmValue};

use crate::vm::{binds_all, define_native_table, method_entries, native_method, NativeArity, NativeFn, NativeMethod};
verus! {

/// `str::to_lowercase`: the full Unicode lowercase mapping of `s`.
pub uninterp spec fn lowercase(s: Seq<char>) -> Seq<char>;

/// `str::to_uppercase`: the full Unicode uppercase mapping of `s`.
pub uninterp spec fn uppercase(s: Seq<char>) -> Seq<char>;

/// `str::to_lowercase`, whose result depends on the characters of `s` alone;
/// the Unicode case tables it applies are not restated here.
#[verifier::external_body]
fn to_lowercase(s: &str) -> (r: String)
    ensures
        r@ == lowercase(s@),
{
    s.to_lowercase()
}

/// `str::to_uppercase`, whose result depends on the characters of `s` alone;
/// the Unicode case tables it applies are not restated here.
#[verifier::external_body]
fn to_uppercase(s: &str) -> (r: String)
    ensures
        r@ == uppercase(s@),
{
    s.to_uppercase()
}

/// The characters of a `String` receiver.
pub open spec fn str_view(recv: VmValue) -> Seq<char> {
    recv->Str_0@
}

fn recv_chars(recv: &VmValue) -> (cs: Vec<char>)
    requires
        recv is Str,
    ensures
        cs@ == str_view(*recv),
{
    match recv {
        VmValue::Str(s) => str_to_chars(s.as_str()),
        _ => vstd::pervasive::unreached(),
    }
}

/// `items` are strings whose characters are `views`, one for one.
pub open spec fn str_values(items: Seq<VmValue>, views: Seq<Seq<char>>) -> bool {
    items.len() == views.len() && forall|i: int|
        0 <= i < items.len() ==> (#[trigger] items[i] matches VmValue::Str(s) && s@ == views[i])
}

/// `new` is `old` with one more object at the end: a list of strings whose
/// characters are `views`.
pub open spec fn pushed_str_list(old: Seq<ObjView>, new: Seq<ObjView>, views: Seq<Seq<char>>) -> bool {
    &&& new.len() == old.len() + 1
    &&& new.take(old.len() as int) == old
    &&& new.last() matches ObjView::List(items) && str_values(items, views)
}

/// Allocate a list holding the strings `parts`.
fn alloc_str_list(heap: &mut GcHeap<HeapObject>, parts: Vec<String>, Ghost(views): Ghost<
    Seq<Seq<char>>,
>) -> (r: GcRef)
    requires
        old(heap).wf(),
        strings_are(parts@, views),
    ensures
        r.0 == old(heap)@.len(),
        pushed_str_list(old(heap)@, final(heap)@, views),
        final(heap).wf(),
{
    let mut items: Vec<VmValue> = Vec::new();
    let mut parts = parts;
    let ghost all = parts@;
    let mut rev: Vec<VmValue> = Vec::new();
    while parts.len() > 0
        invariant
            strings_are(all, views),
            parts@ == all.take(parts@.len() as int),
            rev@.len() == all.len() - parts@.len(),
            forall|k: int|
                0 <= k < rev@.len() ==> (#[trigger] rev@[k] matches VmValue::Str(s) && s@
                    == views[all.len() - 1 - k]),
        decreases parts@.len(),
    {
        let ghost before = parts@;
        let s = parts.pop().unwrap();
        assert(s == all[before.len() - 1]);
        assert(parts@ =~= all.take(parts@.len() as int));
        rev.push(VmValue::Str(s));
    }
    let mut i = rev.len();
    while i > 0
        invariant
            i <= rev@.len(),
            rev@.len() == all.len(),
            all.len() == views.len(),
            forall|k: int|
                0 <= k < rev@.len() ==> (#[trigger] rev@[k] matches VmValue::Str(s) && s@
                    == views[all.len() - 1 - k]),
            items@.len() == rev@.len() - i,
            forall|k: int|
                0 <= k < items@.len() ==> (#[trigger] items@[k] matches VmValue::Str(s) && s@
                    == views[k]),
        decreases i,
    {
        i -= 1;
        let v = rev[i].copy();
        assert(rev@[i as int] matches VmValue::Str(s) && s@ == views[items@.len() as int]);
        items.push(v);
    }
    let ghost old_objs = heap@;
    let r = heap.allocate(HeapObject::List(items));
    proof {
        assert(heap@.take(old_objs.len() as int) =~= old_objs);
    }
    r
}

/// `bytes`: the UTF-8 encoding of the receiver, one `Int` per byte.
pub fn string_bytes(
    heap: &mut GcHeap<HeapObject>,
    recv: &VmValue,
    _args: &[VmValue],
    _line: u32,
) -> (res: Result<VmValue, VmError>)
    requires
        old(heap).wf(),
        recv is Str,
    ensures
        res == Ok::<VmValue, VmError>(VmValue::List(GcRef(old(heap)@.len() as usize))),
        final(heap)@ == old(heap)@.push(
            ObjView::List(encode_utf8(str_view(*recv)).map_values(|b: u8| VmValue::Int(b as i64))),
        ),
        final(heap).wf(),
{
    let bytes: &[u8] = match recv {
        VmValue::Str(s) => s.as_str().as_bytes(),
        _ => vstd::pervasive::unreached(),
    };
    let ghost want = encode_utf8(str_view(*recv)).map_values(|b: u8| VmValue::Int(b as i64));
    let mut items: Vec<VmValue> = Vec::new();
    let mut i: usize = 0;
    while i < bytes.len()
        invariant
            i <= bytes@.len(),
            bytes@ == encode_utf8(str_view(*recv)),
            want == encode_utf8(str_view(*recv)).map_values(|b: u8| VmValue::Int(b as i64)),
            items@ == want.take(i as int),
        decreases bytes@.len() - i,
    {
        items.push(VmValue::Int(bytes[i] as i64));
        i += 1;
        assert(items@ =~= want.take(i as int));
    }
    assert(want.take(i as int) =~= want);
    let r = heap.allocate(HeapObject::List(items));
    Ok(VmValue::List(r))
}

/// `chars`: each character of the receiver as a one-character string.
pub fn string_chars(
    heap: &mut GcHeap<HeapObject>,
    recv: &VmValue,
    _args: &[VmValue],
    _line: u32,
) -> (res: Result<VmValue, VmError>)
    requires
        old(heap).wf(),
        recv is Str,
    ensures
        res == Ok::<VmValue, VmError>(VmValue::List(GcRef(old(heap)@.len() as usize))),
        pushed_str_list(
            old(heap)@,
            final(heap)@,
            str_view(*recv).map_values(|c: char| seq![c]),
        ),
        final(heap).wf(),
{
    let cs = recv_chars(recv);
    let parts = singletons(&cs);
    let ghost views = cs@.map_values(|c: char| seq![c]);
    assert(strings_are(parts@, views));
    let r = alloc_str_list(heap, parts, Ghost(views));
    Ok(VmValue::List(r))
}

/// `chomp`: the receiver without its trailing newlines.
pub fn string_chomp(
    _heap: &mut GcHeap<HeapObject>,
    recv: &VmValue,
    _args: &[VmValue],
    _line: u32,
) -> (res: Result<VmValue, VmError>)
    requires
        recv is Str,
    ensures
        res matches Ok(VmValue::Str(s)) && s@ == trim_end_newlines(str_view(*recv)),
        *final(_heap) == *old(_heap),
{
    let cs = recv_chars(recv);
    Ok(VmValue::Str(chomp_chars(&cs)))
}

/// `downcase`: the receiver in lower case.
pub fn string_downcase(
    _heap: &mut GcHeap<HeapObject>,
    recv: &VmValue,
    _args: &[VmValue],
    _line: u32,
) -> (res: Result<VmValue, VmError>)
    requires
        recv is Str,
    ensures
        res matches Ok(VmValue::Str(s)) && s@ == lowercase(str_view(*recv)),
        *final(_heap) == *old(_heap),
{
    match recv {
        VmValue::Str(s) => Ok(VmValue::Str(to_lowercase(s.as_str()))),
        _ => vstd::pervasive::unreached(),
    }
}

/// `empty?`: whether the receiver has no characters.
pub fn string_empty_q(
    _heap: &mut GcHeap<HeapObject>,
    recv: &VmValue,
    _args: &[VmValue],
    _line: u32,
) -> (res: Result<VmValue, VmError>)
    requires
        recv is Str,
    ensures
        res == Ok::<VmValue, VmError>(VmValue::Bool(str_view(*recv).len() == 0)),
        *final(_heap) == *old(_heap),
{
    let cs = recv_chars(recv);
    Ok(VmValue::Bool(cs.len() == 0))
}

/// The characters of the string argument, if it is one.
fn arg_chars(v: &VmValue) -> (r: Option<Vec<char>>)
    ensures
        match r {
            Some(cs) => *v is Str && cs@ == str_view(*v),
            None => !(*v is Str),
        },
{
    match v {
        VmValue::Str(s) => Some(str_to_chars(s.as_str())),
        _ => None,
    }
}

/// `ends_with?(s)`.
pub fn string_ends_with_q(
    _heap: &mut GcHeap<HeapObject>,
    recv: &VmValue,
    args: &[VmValue],
    line: u32,
) -> (res: Result<VmValue, VmError>)
    requires
        recv is Str,
        args@.len() == 1,
    ensures
        *final(_heap) == *old(_heap),
        args@[0] is Str ==> res == Ok::<VmValue, VmError>(
            VmValue::Bool(is_suffix(str_view(args@[0]), str_view(*recv))),
        ),
        !(args@[0] is Str) ==> (res matches Err(e) && is_type_error(
            e,
            "ends_with? expects a String"@,
            line,
        )),
{
    let cs = recv_chars(recv);
    match arg_chars(&args[0]) {
        Some(p) => Ok(VmValue::Bool(ends_with_chars(&cs, &p))),
        None => Err(type_error("ends_with? expects a String", line)),
    }
}

/// `include?(s)`.
pub fn string_include_q(
    _heap: &mut GcHeap<HeapObject>,
    recv: &VmValue,
    args: &[VmValue],
    line: u32,
) -> (res: Result<VmValue, VmError>)
    requires
        recv is Str,
        args@.len() == 1,
    ensures
        *final(_heap) == *old(_heap),
        args@[0] is Str ==> res == Ok::<VmValue, VmError>(
            VmValue::Bool(contains_seq(str_view(*recv), str_view(args@[0]))),
        ),
        !(args@[0] is Str) ==> (res matches Err(e) && is_type_error(
            e,
            "include? expects a String"@,
            line,
        )),
{
    let cs = recv_chars(recv);
    match arg_chars(&args[0]) {
        Some(p) => Ok(VmValue::Bool(contains_chars(&cs, &p))),
        None => Err(type_error("include? expects a String", line)),
    }
}

/// `lines`: the receiver's lines, without their line endings.
pub fn string_lines(
    heap: &mut GcHeap<HeapObject>,
    recv: &VmValue,
    _args: &[VmValue],
    _line: u32,
) -> (res: Result<VmValue, VmError>)
    requires
        old(heap).wf(),
        recv is Str,
    ensures
        res == Ok::<VmValue, VmError>(VmValue::List(GcRef(old(heap)@.len() as usize))),
        pushed_str_list(old(heap)@, final(heap)@, lines_seq(str_view(*recv))),
        final(heap).wf(),
{
    let cs = recv_chars(recv);
    let parts = lines_chars(&cs);
    let r = alloc_str_list(heap, parts, Ghost(lines_seq(cs@)));
    Ok(VmValue::List(r))
}

/// `replace(from, to)`: the first occurrence of `from` replaced by `to`.
pub fn string_replace(
    _heap: &mut GcHeap<HeapObject>,
    recv: &VmValue,
    args: &[VmValue],
    line: u32,
) -> (res: Result<VmValue, VmError>)
    requires
        recv is Str,
        args@.len() == 2,
    ensures
        *final(_heap) == *old(_heap),
        args@[0] is Str && args@[1] is Str ==> (res matches Ok(VmValue::Str(s)) && s@
            == replace_first(str_view(*recv), str_view(args@[0]), str_view(args@[1]))),
        !(args@[0] is Str && args@[1] is Str) ==> (res matches Err(e) && is_type_error(
            e,
            "replace expects two Strings"@,
            line,
        )),
{
    let cs = recv_chars(recv);
    match (arg_chars(&args[0]), arg_chars(&args[1])) {
        (Some(from), Some(to)) => Ok(VmValue::Str(replace_first_chars(&cs, &from, &to))),
        _ => Err(type_error("replace expects two Strings", line)),
    }
}

/// `str::replace`: every non-overlapping occurrence of `p` replaced by `to`.
pub open spec fn replace_str(s: Seq<char>, p: Seq<char>, to: Seq<char>) -> Seq<char> {
    if p.len() == 0 {
        replace_empty(s, to)
    } else {
        replace_all_seq(s, p, to)
    }
}

/// `replace_all(from, to)`: every occurrence of `from` replaced by `to`.
pub fn string_replace_all(
    _heap: &mut GcHeap<HeapObject>,
    recv: &VmValue,
    args: &[VmValue],
    line: u32,
) -> (res: Result<VmValue, VmError>)
    requires
        recv is Str,
        args@.len() == 2,
    ensures
        *final(_heap) == *old(_heap),
        args@[0] is Str && args@[1] is Str ==> (res matches Ok(VmValue::Str(s)) && s@
            == replace_str(str_view(*recv), str_view(args@[0]), str_view(args@[1]))),
        !(args@[0] is Str && args@[1] is Str) ==> (res matches Err(e) && is_type_error(
            e,
            "replace_all expects two Strings"@,
            line,
        )),
{
    let cs = recv_chars(recv);
    match (arg_chars(&args[0]), arg_chars(&args[1])) {
        (Some(from), Some(to)) => {
            if from.len() == 0 {
                Ok(VmValue::Str(replace_empty_chars(&cs, &to)))
            } else {
                Ok(VmValue::Str(replace_all_chars(&cs, &from, &to)))
            }
        },
        _ => Err(type_error("replace_all expects two Strings", line)),
    }
}

/// `reverse`: the receiver's characters in reverse order.
pub fn string_reverse(
    _heap: &mut GcHeap<HeapObject>,
    recv: &VmValue,
    _args: &[VmValue],
    _line: u32,
) -> (res: Result<VmValue, VmError>)
    requires
        recv is Str,
    ensures
        res matches Ok(VmValue::Str(s)) && s@ == str_view(*recv).reverse(),
        *final(_heap) == *old(_heap),
{
    let cs = recv_chars(recv);
    Ok(VmValue::Str(reverse_chars(&cs)))
}

/// `size`: the number of characters of the receiver.
pub fn string_size(
    _heap: &mut GcHeap<HeapObject>,
    recv: &VmValue,
    _args: &[VmValue],
    _line: u32,
) -> (res: Result<VmValue, VmError>)
    requires
        recv is Str,
        str_view(*recv).len() <= i64::MAX,
    ensures
        res == Ok::<VmValue, VmError>(VmValue::Int(str_view(*recv).len() as i64)),
        *final(_heap) == *old(_heap),
{
    let cs = recv_chars(recv);
    Ok(VmValue::Int(cs.len() as i64))
}

/// Where `slice(start, len)` starts: a negative `start` counts from the end
/// and stops at the first character.
pub open spec fn slice_start(n: int, start: int) -> int {
    if start < 0 {
        if n + start > 0 {
            n + start
        } else {
            0
        }
    } else {
        start
    }
}

/// Where `slice(start, len)` ends: `len` characters on, or at the end; a
/// negative `len`, read as a huge unsigned count, always reaches the end.
pub open spec fn slice_end(n: int, start: int, len: int) -> int {
    let st = slice_start(n, start);
    if len >= 0 && st + len < n {
        st + len
    } else {
        n
    }
}

/// The inputs on which `slice` returns: the start lies within the string,
/// and a negative length read as an unsigned count does not overflow when
/// added to it.
pub open spec fn slice_ok(n: int, start: int, len: int) -> bool {
    &&& slice_start(n, start) <= n
    &&& len < 0 ==> slice_start(n, start) < -len
}

/// `slice(start, len)`: up to `len` characters from `start`.
pub fn string_slice(
    _heap: &mut GcHeap<HeapObject>,
    recv: &VmValue,
    args: &[VmValue],
    line: u32,
) -> (res: Result<VmValue, VmError>)
    requires
        recv is Str,
        args@.len() == 2,
        (args@[0] is Int && args@[1] is Int) ==> slice_ok(
            str_view(*recv).len() as int,
            args@[0]->Int_0 as int,
            args@[1]->Int_0 as int,
        ),
    ensures
        *final(_heap) == *old(_heap),
        (args@[0] is Int && args@[1] is Int) ==> (res matches Ok(VmValue::Str(s)) && s@ == str_view(*recv).subrange(
            slice_start(str_view(*recv).len() as int, args@[0]->Int_0 as int),
            slice_end(str_view(*recv).len() as int, args@[0]->Int_0 as int, args@[1]->Int_0 as int),
        )),
        !(args@[0] is Int && args@[1] is Int) ==> (res matches Err(e) && is_type_error(
            e,
            "slice expects (Int, Int)"@,
            line,
        )),
{
    let cs = recv_chars(recv);
    match (&args[0], &args[1]) {
        (VmValue::Int(start), VmValue::Int(len)) => {
            let n = cs.len();
            let st: usize = if *start < 0 {
                if (n as i128) + (*start as i128) > 0 {
                    ((n as i128) + (*start as i128)) as usize
                } else {
                    0
                }
            } else {
                *start as usize
            };
            let end: usize = if *len >= 0 && (st as i128) + (*len as i128) < (n as i128) {
                ((st as i128) + (*len as i128)) as usize
            } else {
                n
            };
            Ok(VmValue::Str(piece(&cs, st, end)))
        },
        _ => Err(type_error("slice expects (Int, Int)", line)),
    }
}

/// `str::split`: the pieces between occurrences of `p`.
pub open spec fn split_pieces(s: Seq<char>, p: Seq<char>) -> Seq<Seq<char>> {
    split_str(s, p)
}

/// `split` or `split(sep)`: the receiver split at whitespace runs, or at each
/// occurrence of `sep`.
pub fn string_split(
    heap: &mut GcHeap<HeapObject>,
    recv: &VmValue,
    args: &[VmValue],
    line: u32,
) -> (res: Result<VmValue, VmError>)
    requires
        old(heap).wf(),
        recv is Str,
    ensures
        final(heap).wf(),
        args@.len() == 0 ==> res == Ok::<VmValue, VmError>(
            VmValue::List(GcRef(old(heap)@.len() as usize)),
        ) && pushed_str_list(old(heap)@, final(heap)@, words(str_view(*recv))),
        args@.len() == 1 && args@[0] is Str ==> res == Ok::<VmValue, VmError>(
            VmValue::List(GcRef(old(heap)@.len() as usize)),
        ) && pushed_str_list(
            old(heap)@,
            final(heap)@,
            split_str(str_view(*recv), str_view(args@[0])),
        ),
        !(args@.len() == 0 || (args@.len() == 1 && args@[0] is Str)) ==> (res matches Err(e)
            && is_type_error(e, "split expects a String delimiter"@, line) && *final(heap)
            == *old(heap)),
{
    let cs = recv_chars(recv);
    if args.len() == 0 {
        let parts = words_chars(&cs);
        let r = alloc_str_list(heap, parts, Ghost(words(cs@)));
        return Ok(VmValue::List(r));
    }
    if args.len() == 1 {
        if let Some(sep) = arg_chars(&args[0]) {
            if sep.len() == 0 {
                let parts = split_empty_chars(&cs);
                let r = alloc_str_list(heap, parts, Ghost(split_empty(cs@)));
                return Ok(VmValue::List(r));
            } else {
                let parts = split_chars(&cs, &sep);
                assert(strings_are(parts@, split_seq(cs@, sep@)));
                let r = alloc_str_list(heap, parts, Ghost(split_seq(cs@, sep@)));
                return Ok(VmValue::List(r));
            }
        }
    }
    Err(type_error("split expects a String delimiter", line))
}

/// `starts_with?(s)`.
pub fn string_starts_with_q(
    _heap: &mut GcHeap<HeapObject>,
    recv: &VmValue,
    args: &[VmValue],
    line: u32,
) -> (res: Result<VmValue, VmError>)
    requires
        recv is Str,
        args@.len() == 1,
    ensures
        *final(_heap) == *old(_heap),
        args@[0] is Str ==> res == Ok::<VmValue, VmError>(
            VmValue::Bool(is_prefix(str_view(args@[0]), str_view(*recv))),
        ),
        !(args@[0] is Str) ==> (res matches Err(e) && is_type_error(
            e,
            "starts_with? expects a String"@,
            line,
        )),
{
    let cs = recv_chars(recv);
    match arg_chars(&args[0]) {
        Some(p) => Ok(VmValue::Bool(starts_with_chars(&cs, &p))),
        None => Err(type_error("starts_with? expects a String", line)),
    }
}

/// `to_i`: the receiver, trimmed, read as an `Int`; `0` when it is not one.
pub fn string_to_i(
    _heap: &mut GcHeap<HeapObject>,
    recv: &VmValue,
    _args: &[VmValue],
    _line: u32,
) -> (res: Result<VmValue, VmError>)
    requires
        recv is Str,
    ensures
        *final(_heap) == *old(_heap),
        res == Ok::<VmValue, VmError>(
            VmValue::Int(
                match parse_i64(trim_ws(str_view(*recv))) {
                    Some(v) => v as i64,
                    None => 0,
                },
            ),
        ),
{
    let cs = recv_chars(recv);
    let t = trim_chars(&cs);
    let tc = str_to_chars(t.as_str());
    match parse_i64_chars(&tc) {
        Some(v) => Ok(VmValue::Int(v)),
        None => Ok(VmValue::Int(0)),
    }
}

/// `to_s`: the receiver itself.
pub fn string_to_s(
    _heap: &mut GcHeap<HeapObject>,
    recv: &VmValue,
    _args: &[VmValue],
    _line: u32,
) -> (res: Result<VmValue, VmError>)
    requires
        recv is Str,
    ensures
        res matches Ok(VmValue::Str(s)) && s@ == str_view(*recv),
        *final(_heap) == *old(_heap),
{
    match recv {
        VmValue::Str(s) => Ok(VmValue::Str(s.clone())),
        _ => vstd::pervasive::unreached(),
    }
}

/// `trim`: the receiver without leading and trailing whitespace.
pub fn string_trim(
    _heap: &mut GcHeap<HeapObject>,
    recv: &VmValue,
    _args: &[VmValue],
    _line: u32,
) -> (res: Result<VmValue, VmError>)
    requires
        recv is Str,
    ensures
        res matches Ok(VmValue::Str(s)) && s@ == trim_ws(str_view(*recv)),
        *final(_heap) == *old(_heap),
{
    let cs = recv_chars(recv);
    Ok(VmValue::Str(trim_chars(&cs)))
}

/// `upcase`: the receiver in upper case.
pub fn string_upcase(
    _heap: &mut GcHeap<HeapObject>,
    recv: &VmValue,
    _args: &[VmValue],
    _line: u32,
) -> (res: Result<VmValue, VmError>)
    requires
        recv is Str,
    ensures
        res matches Ok(VmValue::Str(s)) && s@ == uppercase(str_view(*recv)),
        *final(_heap) == *old(_heap),
{
    match recv {
        VmValue::Str(s) => Ok(VmValue::Str(to_uppercase(s.as_str()))),
        _ => vstd::pervasive::unreached(),
    }
}


/// The instance methods that `register_methods` binds on the `String` class, in binding order.
pub open spec fn string_methods() -> Seq<(Seq<char>, NativeArity, NativeFn)> {
    seq![
        ("bytes"@, NativeArity { min: 0, max: 0 }, NativeFn::StringBytes),
        ("chars"@, NativeArity { min: 0, max: 0 }, NativeFn::StringChars),
        ("chomp"@, NativeArity { min: 0, max: 0 }, NativeFn::StringChomp),
        ("downcase"@, NativeArity { min: 0, max: 0 }, NativeFn::StringDowncase),
        ("empty?"@, NativeArity { min: 0, max: 0 }, NativeFn::StringEmptyQ),
        ("ends_with?"@, NativeArity { min: 1, max: 1 }, NativeFn::StringEndsWithQ),
        ("include?"@, NativeArity { min: 1, max: 1 }, NativeFn::StringIncludeQ),
        ("lines"@, NativeArity { min: 0, max: 0 }, NativeFn::StringLines),
        ("replace"@, NativeArity { min: 2, max: 2 }, NativeFn::StringReplace),
        ("replace_all"@, NativeArity { min: 2, max: 2 }, NativeFn::StringReplaceAll),
        ("reverse"@, NativeArity { min: 0, max: 0 }, NativeFn::StringReverse),
        ("size"@, NativeArity { min: 0, max: 0 }, NativeFn::StringSize),
        ("slice"@, NativeArity { min: 2, max: 2 }, NativeFn::StringSlice),
        ("starts_with?"@, NativeArity { min: 1, max: 1 }, NativeFn::StringStartsWithQ),
        ("split"@, NativeArity { min: 0, max: 1 }, NativeFn::StringSplit),
        ("to_f"@, NativeArity { min: 0, max: 0 }, NativeFn::StringToF),
        ("to_i"@, NativeArity { min: 0, max: 0 }, NativeFn::StringToI),
        ("to_s"@, NativeArity { min: 0, max: 0 }, NativeFn::StringToS),
        ("trim"@, NativeArity { min: 0, max: 0 }, NativeFn::StringTrim),
        ("upcase"@, NativeArity { min: 0, max: 0 }, NativeFn::StringUpcase),
    ]
}

/// Bind the native instance methods of `String` on the class object in `class_ref`.
pub fn register_methods(heap: &mut GcHeap<HeapObject>, class_ref: GcRef)
    requires
        old(heap).is_class(class_ref),
        old(heap).wf(),
    ensures
        final(heap)@ == old(heap)@.update(class_ref.0 as int, final(heap)@[class_ref.0 as int]),
        binds_all(
            old(heap)@[class_ref.0 as int],
            final(heap)@[class_ref.0 as int],
            false,
            string_methods(),
        ),
        final(heap).wf(),
{
    let mut table: Vec<NativeMethod> = Vec::new();
    table.push(native_method("bytes", NativeArity::exactly(0), NativeFn::StringBytes));
    table.push(native_method("chars", NativeArity::exactly(0), NativeFn::StringChars));
    table.push(native_method("chomp", NativeArity::exactly(0), NativeFn::StringChomp));
    table.push(native_method("downcase", NativeArity::exactly(0), NativeFn::StringDowncase));
    table.push(native_method("empty?", NativeArity::exactly(0), NativeFn::StringEmptyQ));
    table.push(native_method("ends_with?", NativeArity::exactly(1), NativeFn::StringEndsWithQ));
    table.push(native_method("include?", NativeArity::exactly(1), NativeFn::StringIncludeQ));
    table.push(native_method("lines", NativeArity::exactly(0), NativeFn::StringLines));
    table.push(native_method("replace", NativeArity::exactly(2), NativeFn::StringReplace));
    table.push(native_method("replace_all", NativeArity::exactly(2), NativeFn::StringReplaceAll));
    table.push(native_method("reverse", NativeArity::exactly(0), NativeFn::StringReverse));
    table.push(native_method("size", NativeArity::exactly(0), NativeFn::StringSize));
    table.push(native_method("slice", NativeArity::exactly(2), NativeFn::StringSlice));
    table.push(native_method("starts_with?", NativeArity::exactly(1), NativeFn::StringStartsWithQ));
    table.push(native_method("split", NativeArity { min: 0, max: 1 }, NativeFn::StringSplit));
    table.push(native_method("to_f", NativeArity::exactly(0), NativeFn::StringToF));
    table.push(native_method("to_i", NativeArity::exactly(0), NativeFn::StringToI));
    table.push(native_method("to_s", NativeArity::exactly(0), NativeFn::StringToS));
    table.push(native_method("trim", NativeArity::exactly(0), NativeFn::StringTrim));
    table.push(native_method("upcase", NativeArity::exactly(0), NativeFn::StringUpcase));
    assert(method_entries(table@) =~= string_methods());
    define_native_table(heap, class_ref, table, false);
}

} // verus!
