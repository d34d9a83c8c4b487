//! Native methods of `Map`.  Keys are strings.
use vstd::prelude::*;

use crate::gc::{
    entry_index, find_key, keys_unique, lemma_entry_index_of_unique, map_inserted, map_lookup,
    map_removed, GcHeap, GcRef,
};
use crate::text::{
    chars_le, lemma_chars_le_antisym, lemma_chars_le_refl, lemma_chars_le_total,
    lemma_chars_le_trans, str_le,
};
use crate::vm::{is_type_error, type_error, HeapObject, ObjView, VmError, VmValue};

use crate::vm::{binds_all, define_native_table, method_entries, native_method, NativeArity, NativeFn, NativeMethod};
verus! {

pub open spec fn map_ref(recv: VmValue) -> GcRef {
    recv->MapRef_0
}

/// What every `Map` native expects: a well-formed heap and a receiver that
/// is a map on it.
pub open spec fn map_recv_ok(heap: &GcHeap<HeapObject>, recv: VmValue) -> bool {
    heap.wf() && recv is MapRef && heap.is_map(map_ref(recv))
}

fn map_r(recv: &VmValue) -> (r: GcRef)
    requires
        recv is MapRef,
    ensures
        r == map_ref(*recv),
{
    match recv {
        VmValue::MapRef(r) => *r,
        _ => vstd::pervasive::unreached(),
    }
}

/// `k` orders strictly before `l`.
pub open spec fn key_lt(k: Seq<char>, l: Seq<char>) -> bool {
    chars_le(k, l) && k != l
}

/// `s` holds exactly the entries of `e`, in ascending order of key.
pub open spec fn sorted_by_key(s: Seq<(String, VmValue)>, e: Seq<(String, VmValue)>) -> bool {
    &&& s.len() == e.len()
    &&& strictly_sorted(s)
    &&& forall|i: int| 0 <= i < s.len() ==> e.contains(#[trigger] s[i])
    &&& forall|j: int| 0 <= j < e.len() ==> s.contains(#[trigger] e[j])
}

/// Entries in strictly ascending order of key.
pub open spec fn strictly_sorted(s: Seq<(String, VmValue)>) -> bool {
    forall|i: int, j: int| 0 <= i < j < s.len() ==> key_lt(#[trigger] s[i].0@, #[trigger] s[j].0@)
}

proof fn lemma_insert_keeps_sorted(s: Seq<(String, VmValue)>, x: (String, VmValue), p: int)
    requires
        0 <= p <= s.len(),
        strictly_sorted(s),
        forall|a: int| 0 <= a < p ==> chars_le(#[trigger] s[a].0@, x.0@),
        p < s.len() ==> !chars_le(s[p].0@, x.0@),
        forall|a: int| 0 <= a < s.len() ==> #[trigger] s[a].0@ != x.0@,
    ensures
        strictly_sorted(s.insert(p, x)),
{
    let n = s.insert(p, x);
    assert forall|a: int, b: int| 0 <= a < b < n.len() implies key_lt(
        #[trigger] n[a].0@,
        #[trigger] n[b].0@,
    ) by {
        if b < p {
            assert(n[a] == s[a] && n[b] == s[b]);
        } else if b == p {
            assert(n[a] == s[a]);
        } else if a < p {
            assert(n[a] == s[a] && n[b] == s[b - 1]);
            if a < b - 1 {
                assert(key_lt(s[a].0@, s[b - 1].0@));
            } else {
                assert(chars_le(s[a].0@, x.0@));
                lemma_chars_le_total(s[p].0@, x.0@);
                lemma_chars_le_trans(s[a].0@, x.0@, s[p].0@);
                if s[a].0@ == s[p].0@ {
                    lemma_chars_le_antisym(x.0@, s[p].0@);
                }
            }
        } else if a == p {
            assert(n[a] == x && n[b] == s[b - 1]);
            lemma_chars_le_total(s[p].0@, x.0@);
            if p < b - 1 {
                assert(key_lt(s[p].0@, s[b - 1].0@));
                lemma_chars_le_trans(x.0@, s[p].0@, s[b - 1].0@);
                if x.0@ == s[b - 1].0@ {
                    lemma_chars_le_antisym(x.0@, s[p].0@);
                }
            }
        } else {
            assert(n[a] == s[a - 1] && n[b] == s[b - 1]);
        }
    }
}

/// Insert `x` before the first entry whose key orders after its key.
fn insert_sorted(out: &mut Vec<(String, VmValue)>, x: (String, VmValue))
    requires
        strictly_sorted(old(out)@),
        forall|a: int| 0 <= a < old(out)@.len() ==> #[trigger] old(out)@[a].0@ != x.0@,
    ensures
        strictly_sorted(final(out)@),
        exists|p: int| 0 <= p <= old(out)@.len() && final(out)@ == old(out)@.insert(p, x),
{
    let mut p: usize = 0;
    while p < out.len() && str_le(out[p].0.as_str(), x.0.as_str())
        invariant
            p <= out@.len(),
            forall|a: int| 0 <= a < p ==> chars_le(#[trigger] out@[a].0@, x.0@),
        decreases out@.len() - p,
    {
        p += 1;
    }
    proof {
        lemma_insert_keeps_sorted(out@, x, p as int);
    }
    out.insert(p, x);
}

/// The entries of a map in ascending order of key.
fn sort_entries(entries: &Vec<(String, VmValue)>) -> (out: Vec<(String, VmValue)>)
    requires
        keys_unique(entries@),
    ensures
        sorted_by_key(out@, entries@),
{
    let mut out: Vec<(String, VmValue)> = Vec::new();
    let mut i: usize = 0;
    while i < entries.len()
        invariant
            i <= entries.len(),
            keys_unique(entries@),
            out@.len() == i,
            strictly_sorted(out@),
            forall|a: int| 0 <= a < out@.len() ==> entries@.take(i as int).contains(#[trigger] out@[a]),
            forall|j: int| 0 <= j < i ==> out@.contains(#[trigger] entries@[j]),
        decreases entries.len() - i,
    {
        let ghost old_out = out@;
        let ghost x = entries@[i as int];
        proof {
            assert forall|a: int| 0 <= a < old_out.len() implies #[trigger] old_out[a].0@ != x.0@ by {
                let j = choose|j: int| 0 <= j < i && entries@.take(i as int)[j] == old_out[a];
                assert(entries@.take(i as int)[j] == entries@[j]);
                assert(entries@[j].0@ != entries@[i as int].0@);
            }
        }
        let e = (entries[i].0.clone(), entries[i].1.copy());
        assert(e == x);
        insert_sorted(&mut out, e);
        proof {
            let p = choose|p: int| 0 <= p <= old_out.len() && out@ == old_out.insert(p, x);
            let t = entries@.take(i + 1);
            assert forall|a: int| 0 <= a < out@.len() implies t.contains(#[trigger] out@[a]) by {
                if a < p {
                    assert(out@[a] == old_out[a]);
                    let j = choose|j: int| 0 <= j < i && entries@.take(i as int)[j] == old_out[a];
                    assert(t[j] == entries@.take(i as int)[j]);
                } else if a == p {
                    assert(out@[a] == t[i as int]);
                } else {
                    assert(out@[a] == old_out[a - 1]);
                    let j = choose|j: int| 0 <= j < i && entries@.take(i as int)[j] == old_out[a - 1];
                    assert(t[j] == entries@.take(i as int)[j]);
                }
            }
            assert forall|j: int| 0 <= j < i + 1 implies out@.contains(#[trigger] entries@[j]) by {
                if j == i {
                    assert(out@[p] == entries@[j]);
                } else {
                    let a = choose|a: int| 0 <= a < old_out.len() && old_out[a] == entries@[j];
                    if a < p {
                        assert(out@[a] == entries@[j]);
                    } else {
                        assert(out@[a + 1] == entries@[j]);
                    }
                }
            }
        }
        i += 1;
    }
    assert(entries@.take(entries@.len() as int) =~= entries@);
    out
}

/// Removes the entry for a string key; answers its value, or `nil`.
pub fn map_delete(
    heap: &mut GcHeap<HeapObject>,
    recv: &VmValue,
    args: &[VmValue],
    line: u32,
) -> (res: Result<VmValue, VmError>)
    requires
        map_recv_ok(old(heap), *recv),
        args@.len() >= 1,
    ensures
        final(heap).wf(),
        match args@[0] {
            VmValue::Str(k) => res == Ok::<VmValue, VmError>(
                match map_lookup(old(heap).map(map_ref(*recv)), k@) {
                    Some(v) => v,
                    None => VmValue::Nil,
                },
            ) && final(heap)@ == old(heap)@.update(
                map_ref(*recv).0 as int,
                ObjView::MapObj(map_removed(old(heap).map(map_ref(*recv)), k@)),
            ),
            _ => res matches Err(e) && is_type_error(e, "delete expects a String key"@, line)
                && *final(heap) == *old(heap),
        },
{
    let r = map_r(recv);
    match &args[0] {
        VmValue::Str(k) => {
            match heap.map_remove(r, k.as_str()) {
                Some(v) => Ok(v),
                None => Ok(VmValue::Nil),
            }
        },
        _ => Err(type_error("delete expects a String key", line)),
    }
}

pub fn map_empty_q(
    heap: &mut GcHeap<HeapObject>,
    recv: &VmValue,
    _args: &[VmValue],
    _line: u32,
) -> (res: Result<VmValue, VmError>)
    requires
        map_recv_ok(old(heap), *recv),
    ensures
        res == Ok::<VmValue, VmError>(VmValue::Bool(old(heap).map(map_ref(*recv)).len() == 0)),
        *final(heap) == *old(heap),
{
    let r = map_r(recv);
    Ok(VmValue::Bool(heap.get_map(r).len() == 0))
}

/// The value bound to a string key, or `nil`.
pub fn map_get(
    heap: &mut GcHeap<HeapObject>,
    recv: &VmValue,
    args: &[VmValue],
    line: u32,
) -> (res: Result<VmValue, VmError>)
    requires
        map_recv_ok(old(heap), *recv),
        args@.len() >= 1,
    ensures
        *final(heap) == *old(heap),
        match args@[0] {
            VmValue::Str(k) => res == Ok::<VmValue, VmError>(
                match map_lookup(old(heap).map(map_ref(*recv)), k@) {
                    Some(v) => v,
                    None => VmValue::Nil,
                },
            ),
            _ => res matches Err(e) && is_type_error(e, "get expects a String key"@, line),
        },
{
    let r = map_r(recv);
    match &args[0] {
        VmValue::Str(k) => {
            let entries = heap.get_map(r);
            proof {
                assert(heap.wf());
                assert(keys_unique(entries@));
            }
            match find_key(entries, k.as_str()) {
                Some(i) => Ok(entries[i].1.copy()),
                None => Ok(VmValue::Nil),
            }
        },
        _ => Err(type_error("get expects a String key", line)),
    }
}

/// Whether a string key is bound.
pub fn map_has_key_q(
    heap: &mut GcHeap<HeapObject>,
    recv: &VmValue,
    args: &[VmValue],
    line: u32,
) -> (res: Result<VmValue, VmError>)
    requires
        map_recv_ok(old(heap), *recv),
        args@.len() >= 1,
    ensures
        *final(heap) == *old(heap),
        match args@[0] {
            VmValue::Str(k) => res == Ok::<VmValue, VmError>(
                VmValue::Bool(map_lookup(old(heap).map(map_ref(*recv)), k@) is Some),
            ),
            _ => res matches Err(e) && is_type_error(e, "has_key? expects a String"@, line),
        },
{
    let r = map_r(recv);
    match &args[0] {
        VmValue::Str(k) => {
            let entries = heap.get_map(r);
            proof {
                assert(keys_unique(entries@));
            }
            Ok(VmValue::Bool(find_key(entries, k.as_str()).is_some()))
        },
        _ => Err(type_error("has_key? expects a String", line)),
    }
}

/// The keys of `s`, as strings.
pub open spec fn entry_keys(s: Seq<(String, VmValue)>) -> Seq<VmValue> {
    s.map_values(|e: (String, VmValue)| VmValue::Str(e.0))
}

/// The values of `s`.
pub open spec fn entry_values(s: Seq<(String, VmValue)>) -> Seq<VmValue> {
    s.map_values(|e: (String, VmValue)| e.1)
}

/// A new list of the keys, in ascending order.
pub fn map_keys(
    heap: &mut GcHeap<HeapObject>,
    recv: &VmValue,
    _args: &[VmValue],
    _line: u32,
) -> (res: Result<VmValue, VmError>)
    requires
        map_recv_ok(old(heap), *recv),
    ensures
        res == Ok::<VmValue, VmError>(VmValue::List(GcRef(old(heap)@.len() as usize))),
        exists|s: Seq<(String, VmValue)>|
            sorted_by_key(s, old(heap).map(map_ref(*recv))) && final(heap)@ == old(heap)@.push(
                ObjView::List(#[trigger] entry_keys(s)),
            ),
        final(heap).wf(),
{
    let r = map_r(recv);
    let entries = heap.get_map(r);
    proof {
        assert(keys_unique(entries@));
    }
    let sorted = sort_entries(entries);
    let mut keys: Vec<VmValue> = Vec::new();
    let mut i: usize = 0;
    while i < sorted.len()
        invariant
            i <= sorted@.len(),
            keys@ == entry_keys(sorted@.take(i as int)),
        decreases sorted@.len() - i,
    {
        keys.push(VmValue::Str(sorted[i].0.clone()));
        i += 1;
        assert(keys@ =~= entry_keys(sorted@.take(i as int)));
    }
    assert(sorted@.take(sorted@.len() as int) =~= sorted@);
    let ghost s = sorted@;
    let nr = heap.allocate(HeapObject::List(keys));
    assert(sorted_by_key(s, old(heap).map(map_ref(*recv))));
    Ok(VmValue::List(nr))
}

/// A new map holding the receiver's entries overridden by the argument's.
pub fn map_merge(
    heap: &mut GcHeap<HeapObject>,
    recv: &VmValue,
    args: &[VmValue],
    line: u32,
) -> (res: Result<VmValue, VmError>)
    requires
        map_recv_ok(old(heap), *recv),
        args@.len() >= 1,
        args@[0] matches VmValue::MapRef(o) ==> old(heap).is_map(o),
    ensures
        final(heap).wf(),
        match args@[0] {
            VmValue::MapRef(o) => res == Ok::<VmValue, VmError>(
                VmValue::MapRef(GcRef(old(heap)@.len() as usize)),
            ) && final(heap)@ == old(heap)@.push(
                ObjView::MapObj(
                    merged_entries(old(heap).map(map_ref(*recv)), old(heap).map(o)),
                ),
            ),
            _ => res matches Err(e) && is_type_error(e, "merge expects a Map"@, line)
                && *final(heap) == *old(heap),
        },
{
    let r = map_r(recv);
    match &args[0] {
        VmValue::MapRef(other_r) => {
            let base = heap.get_map(r);
            let other = heap.get_map(*other_r);
            let new_map = merge_entries(base, other);
            let nr = heap.allocate(HeapObject::MapObj(new_map));
            Ok(VmValue::MapRef(nr))
        },
        _ => Err(type_error("merge expects a Map", line)),
    }
}

/// `base` with each entry of `other` bound in turn.
pub open spec fn merged_entries(base: Seq<(String, VmValue)>, other: Seq<(String, VmValue)>) -> Seq<
    (String, VmValue),
>
    decreases other.len(),
{
    if other.len() == 0 {
        base
    } else {
        let m = merged_entries(base, other.drop_last());
        map_inserted(m, other.last().0, other.last().1)
    }
}

/// Keys stay distinct when an entry is bound.
proof fn lemma_inserted_unique(e: Seq<(String, VmValue)>, k: String, x: VmValue)
    requires
        keys_unique(e),
    ensures
        keys_unique(map_inserted(e, k, x)),
{
    lemma_entry_index_of_unique(e, k@);
    let n = map_inserted(e, k, x);
    assert forall|a: int, b: int|
        0 <= a < n.len() && 0 <= b < n.len() && a != b implies #[trigger] n[a].0@ != #[trigger] n[b].0@ by {
        if a < e.len() && b < e.len() {
            assert(n[a].0@ == e[a].0@);
            assert(n[b].0@ == e[b].0@);
        }
    }
}

proof fn lemma_merged_unique(base: Seq<(String, VmValue)>, other: Seq<(String, VmValue)>)
    requires
        keys_unique(base),
    ensures
        keys_unique(merged_entries(base, other)),
    decreases other.len(),
{
    if other.len() > 0 {
        lemma_merged_unique(base, other.drop_last());
        lemma_inserted_unique(merged_entries(base, other.drop_last()), other.last().0, other.last().1);
    }
}

fn insert_entry(v: &mut Vec<(String, VmValue)>, k: String, x: VmValue)
    requires
        keys_unique(old(v)@),
    ensures
        final(v)@ == map_inserted(old(v)@, k, x),
        keys_unique(final(v)@),
{
    let ghost old_v = v@;
    proof {
        lemma_entry_index_of_unique(old_v, k@);
        lemma_inserted_unique(old_v, k, x);
    }
    match find_key(v, k.as_str()) {
        Some(i) => {
            let key = v[i].0.clone();
            v.set(i, (key, x));
            assert(v@ =~= old_v.update(i as int, (old_v[i as int].0, x)));
        },
        None => {
            v.push((k, x));
        },
    }
}

fn merge_entries(base: &Vec<(String, VmValue)>, other: &Vec<(String, VmValue)>) -> (out: Vec<
    (String, VmValue),
>)
    requires
        keys_unique(base@),
    ensures
        out@ == merged_entries(base@, other@),
        keys_unique(out@),
{
    let mut out: Vec<(String, VmValue)> = Vec::new();
    let mut i: usize = 0;
    while i < base.len()
        invariant
            i <= base@.len(),
            out@ == base@.take(i as int),
        decreases base@.len() - i,
    {
        out.push((base[i].0.clone(), base[i].1.copy()));
        i += 1;
        assert(out@ =~= base@.take(i as int));
    }
    assert(base@.take(base@.len() as int) =~= base@);
    let mut j: usize = 0;
    while j < other.len()
        invariant
            j <= other@.len(),
            keys_unique(base@),
            out@ == merged_entries(base@, other@.take(j as int)),
        decreases other@.len() - j,
    {
        proof {
            lemma_merged_unique(base@, other@.take(j as int));
        }
        assert(other@.take(j + 1).drop_last() =~= other@.take(j as int));
        insert_entry(&mut out, other[j].0.clone(), other[j].1.copy());
        j += 1;
    }
    assert(other@.take(other@.len() as int) =~= other@);
    proof {
        lemma_merged_unique(base@, other@);
    }
    out
}

/// Binds a string key to a value in place; answers the value.
pub fn map_set(
    heap: &mut GcHeap<HeapObject>,
    recv: &VmValue,
    args: &[VmValue],
    line: u32,
) -> (res: Result<VmValue, VmError>)
    requires
        map_recv_ok(old(heap), *recv),
        args@.len() >= 2,
    ensures
        final(heap).wf(),
        match args@[0] {
            VmValue::Str(k) => res == Ok::<VmValue, VmError>(args@[1]) && final(heap)@
                == old(heap)@.update(
                map_ref(*recv).0 as int,
                ObjView::MapObj(map_inserted(old(heap).map(map_ref(*recv)), k, args@[1])),
            ),
            _ => res matches Err(e) && is_type_error(e, "set expects a String key"@, line)
                && *final(heap) == *old(heap),
        },
{
    let r = map_r(recv);
    match &args[0] {
        VmValue::Str(k) => {
            let k = k.clone();
            let v = args[1].copy();
            heap.map_insert(r, k, v);
            Ok(args[1].copy())
        },
        _ => Err(type_error("set expects a String key", line)),
    }
}

pub fn map_size(
    heap: &mut GcHeap<HeapObject>,
    recv: &VmValue,
    _args: &[VmValue],
    _line: u32,
) -> (res: Result<VmValue, VmError>)
    requires
        map_recv_ok(old(heap), *recv),
    ensures
        res == Ok::<VmValue, VmError>(VmValue::Int(old(heap).map(map_ref(*recv)).len() as i64)),
        *final(heap) == *old(heap),
{
    let r = map_r(recv);
    Ok(VmValue::Int(heap.get_map(r).len() as i64))
}

/// A new list of the values, in ascending order of their keys.
pub fn map_values(
    heap: &mut GcHeap<HeapObject>,
    recv: &VmValue,
    _args: &[VmValue],
    _line: u32,
) -> (res: Result<VmValue, VmError>)
    requires
        map_recv_ok(old(heap), *recv),
    ensures
        res == Ok::<VmValue, VmError>(VmValue::List(GcRef(old(heap)@.len() as usize))),
        exists|s: Seq<(String, VmValue)>|
            sorted_by_key(s, old(heap).map(map_ref(*recv))) && final(heap)@ == old(heap)@.push(
                ObjView::List(#[trigger] entry_values(s)),
            ),
        final(heap).wf(),
{
    let r = map_r(recv);
    let entries = heap.get_map(r);
    proof {
        assert(keys_unique(entries@));
    }
    let sorted = sort_entries(entries);
    let mut vals: Vec<VmValue> = Vec::new();
    let mut i: usize = 0;
    while i < sorted.len()
        invariant
            i <= sorted@.len(),
            vals@ == entry_values(sorted@.take(i as int)),
        decreases sorted@.len() - i,
    {
        vals.push(sorted[i].1.copy());
        i += 1;
        assert(vals@ =~= entry_values(sorted@.take(i as int)));
    }
    assert(sorted@.take(sorted@.len() as int) =~= sorted@);
    let ghost s = sorted@;
    let nr = heap.allocate(HeapObject::List(vals));
    assert(sorted_by_key(s, old(heap).map(map_ref(*recv))));
    Ok(VmValue::List(nr))
}


/// The instance methods that `register_methods` binds on the `Map` class, in binding order.
pub open spec fn map_methods() -> Seq<(Seq<char>, NativeArity, NativeFn)> {
    seq![
        ("delete"@, NativeArity { min: 1, max: 1 }, NativeFn::MapDelete),
        ("empty?"@, NativeArity { min: 0, max: 0 }, NativeFn::MapEmptyQ),
        ("get"@, NativeArity { min: 1, max: 1 }, NativeFn::MapGet),
        ("has_key?"@, NativeArity { min: 1, max: 1 }, NativeFn::MapHasKeyQ),
        ("keys"@, NativeArity { min: 0, max: 0 }, NativeFn::MapKeys),
        ("merge"@, NativeArity { min: 1, max: 1 }, NativeFn::MapMerge),
        ("set"@, NativeArity { min: 2, max: 2 }, NativeFn::MapSet),
        ("size"@, NativeArity { min: 0, max: 0 }, NativeFn::MapSize),
        ("to_s"@, NativeArity { min: 0, max: 0 }, NativeFn::MapToS),
        ("values"@, NativeArity { min: 0, max: 0 }, NativeFn::MapValues),
    ]
}

/// Bind the native instance methods of `Map` on the class object in `class_ref`.
pub fn register_methods(heap: &mut GcHeap<HeapObject>, class_ref: GcRef)
    requires
        old(heap).is_class(class_ref),
        old(heap).wf(),
    ensures
        final(heap)@ == old(heap)@.update(class_ref.0 as int, final(heap)@[class_ref.0 as int]),
        binds_all(
            old(heap)@[class_ref.0 as int],
            final(heap)@[class_ref.0 as int],
            false,
            map_methods(),
        ),
        final(heap).wf(),
{
    let mut table: Vec<NativeMethod> = Vec::new();
    table.push(native_method("delete", NativeArity::exactly(1), NativeFn::MapDelete));
    table.push(native_method("empty?", NativeArity::exactly(0), NativeFn::MapEmptyQ));
    table.push(native_method("get", NativeArity::exactly(1), NativeFn::MapGet));
    table.push(native_method("has_key?", NativeArity::exactly(1), NativeFn::MapHasKeyQ));
    table.push(native_method("keys", NativeArity::exactly(0), NativeFn::MapKeys));
    table.push(native_method("merge", NativeArity::exactly(1), NativeFn::MapMerge));
    table.push(native_method("set", NativeArity::exactly(2), NativeFn::MapSet));
    table.push(native_method("size", NativeArity::exactly(0), NativeFn::MapSize));
    table.push(native_method("to_s", NativeArity::exactly(0), NativeFn::MapToS));
    table.push(native_method("values", NativeArity::exactly(0), NativeFn::MapValues));
    assert(method_entries(table@) =~= map_methods());
    define_native_table(heap, class_ref, table, false);
}

} // verus!
