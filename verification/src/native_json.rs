//! The `JSON` class: its method table, the checks of `JSON.parse`'s
//! argument, and the conversion of a parsed document into runtime values.
use vstd::prelude::*;

use crate::gc::{keys_unique, GcHeap, GcRef};
use crate::text::{nat_digits, u64_to_string};
use crate::vm::{
    binds_all, define_native_table, is_type_error, method_entries, native_method, HeapObject,
    NativeArity, NativeFn, NativeMethod, ObjView, VmError, VmValue,
};

verus! {

/// The class methods that `register_class_methods` binds on the `JSON` class, in binding order.
pub open spec fn json_methods() -> Seq<(Seq<char>, NativeArity, NativeFn)> {
    seq![
        ("parse"@, NativeArity { min: 1, max: 1 }, NativeFn::JsonParse),
    ]
}

/// Bind the native class methods of `JSON` on the class object in `class_ref`.
pub fn register_class_methods(heap: &mut GcHeap<HeapObject>, class_ref: GcRef)
    requires
        old(heap).is_class(class_ref),
        old(heap).wf(),
    ensures
        final(heap)@ == old(heap)@.update(class_ref.0 as int, final(heap)@[class_ref.0 as int]),
        binds_all(
            old(heap)@[class_ref.0 as int],
            final(heap)@[class_ref.0 as int],
            true,
            json_methods(),
        ),
        final(heap).wf(),
{
    let mut table: Vec<NativeMethod> = Vec::new();
    table.push(native_method("parse", NativeArity::exactly(1), NativeFn::JsonParse));
    assert(method_entries(table@) =~= json_methods());
    define_native_table(heap, class_ref, table, true);
}

// ── Parsed documents ────────────────────────────────────────────────────────

/// A parsed JSON document.  A number is an integer when it fits in `i64`,
/// else a float, held as its bit pattern.
#[derive(Debug)]
pub enum Json {
    Null,
    Bool(bool),
    Int(i64),
    Float(u64),
    Str(String),
    Array(Vec<Json>),
    Object(Vec<(String, Json)>),
}

/// Within each object of the document, no key occurs twice.
pub open spec fn json_wf(j: Json) -> bool
    decreases j,
{
    match j {
        Json::Array(items) => forall|i: int| 0 <= i < items@.len() ==> json_wf(#[trigger] items@[i]),
        Json::Object(pairs) => {
            &&& forall|a: int, b: int|
                0 <= a < pairs@.len() && 0 <= b < pairs@.len() && a != b ==> #[trigger] pairs@[a].0@
                    != #[trigger] pairs@[b].0@
            &&& forall|i: int| 0 <= i < pairs@.len() ==> json_wf(#[trigger] pairs@[i].1)
        },
        _ => true,
    }
}

/// `v`, read in heap `h`, is the document `j`: scalars as themselves, an
/// array as a list of its items in order, an object as a map of its entries
/// in order.
pub open spec fn json_in_heap(h: Seq<ObjView>, v: VmValue, j: Json) -> bool
    decreases j,
{
    match j {
        Json::Null => v is Nil,
        Json::Bool(b) => v == VmValue::Bool(b),
        Json::Int(n) => v == VmValue::Int(n),
        Json::Float(b) => v == VmValue::Float(b),
        Json::Str(s) => v matches VmValue::Str(t) && t@ == s@,
        Json::Array(items) => match v {
            VmValue::List(r) => r.0 < h.len() && match h[r.0 as int] {
                ObjView::List(xs) => xs.len() == items@.len() && forall|i: int|
                    0 <= i < items@.len() ==> json_in_heap(h, #[trigger] xs[i], items@[i]),
                _ => false,
            },
            _ => false,
        },
        Json::Object(pairs) => match v {
            VmValue::MapRef(r) => r.0 < h.len() && match h[r.0 as int] {
                ObjView::MapObj(es) => es.len() == pairs@.len() && forall|i: int|
                    0 <= i < pairs@.len() ==> (#[trigger] es[i]).0@ == pairs@[i].0@ && json_in_heap(
                        h,
                        es[i].1,
                        pairs@[i].1,
                    ),
                _ => false,
            },
            _ => false,
        },
    }
}

/// What a value means in a heap stays true when objects are added after it.
proof fn lemma_json_in_heap_grows(h: Seq<ObjView>, h2: Seq<ObjView>, v: VmValue, j: Json)
    requires
        json_in_heap(h, v, j),
        h.len() <= h2.len(),
        h2.subrange(0, h.len() as int) == h,
    ensures
        json_in_heap(h2, v, j),
    decreases j,
{
    match j {
        Json::Array(items) => {
            let r = v->List_0;
            assert(h2[r.0 as int] == h2.subrange(0, h.len() as int)[r.0 as int]);
            let xs = h[r.0 as int]->List_0;
            assert forall|i: int| 0 <= i < items@.len() implies json_in_heap(h2, #[trigger] xs[i], items@[i]) by {
                assert(decreases_to!(j => items));
                assert(decreases_to!(items => items@));
                assert(decreases_to!(items@ => items@[i]));
                lemma_json_in_heap_grows(h, h2, xs[i], items@[i]);
            }
        },
        Json::Object(pairs) => {
            let r = v->MapRef_0;
            assert(h2[r.0 as int] == h2.subrange(0, h.len() as int)[r.0 as int]);
            let es = h[r.0 as int]->MapObj_0;
            assert forall|i: int| 0 <= i < pairs@.len() implies (#[trigger] es[i]).0@ == pairs@[i].0@ && json_in_heap(
                h2,
                es[i].1,
                pairs@[i].1,
            ) by {
                assert(decreases_to!(j => pairs));
                assert(decreases_to!(pairs => pairs@));
                assert(decreases_to!(pairs@ => pairs@[i]));
                assert(decreases_to!(pairs@[i] => pairs@[i].1));
                lemma_json_in_heap_grows(h, h2, es[i].1, pairs@[i].1);
            }
        },
        _ => {},
    }
}

/// The runtime value of a parsed document: arrays and objects become new
/// lists and maps in the heap; the objects already there are untouched.
pub fn json_to_vm(heap: &mut GcHeap<HeapObject>, j: &Json) -> (v: VmValue)
    requires
        old(heap).wf(),
        json_wf(*j),
    ensures
        final(heap).wf(),
        old(heap)@.len() <= final(heap)@.len(),
        final(heap)@.subrange(0, old(heap)@.len() as int) == old(heap)@,
        json_in_heap(final(heap)@, v, *j),
    decreases *j,
{
    match j {
        Json::Null => VmValue::Nil,
        Json::Bool(b) => VmValue::Bool(*b),
        Json::Int(n) => VmValue::Int(*n),
        Json::Float(b) => VmValue::Float(*b),
        Json::Str(s) => VmValue::Str(s.clone()),
        Json::Array(items) => {
            proof {
                assert(decreases_to!(*j => *items));
                assert forall|k: int| 0 <= k < items@.len() implies decreases_to!(*j => #[trigger] items@[k]) by {
                    assert(decreases_to!(*items => items@));
                    assert(decreases_to!(items@ => items@[k]));
                }
            }
            let ghost h0 = heap@;
            let mut vals: Vec<VmValue> = Vec::new();
            let mut i: usize = 0;
            while i < items.len()
                invariant
                    i <= items@.len(),
                    vals@.len() == i,
                    heap.wf(),
                    h0.len() <= heap@.len(),
                    heap@.subrange(0, h0.len() as int) == h0,
                    forall|k: int| 0 <= k < items@.len() ==> decreases_to!(*j => #[trigger] items@[k]),
                    forall|k: int| 0 <= k < items@.len() ==> json_wf(#[trigger] items@[k]),
                    forall|k: int| 0 <= k < i ==> json_in_heap(heap@, #[trigger] vals@[k], items@[k]),
                decreases items@.len() - i,
            {
                assert(decreases_to!(*j => items@[i as int]));
                let ghost hb = heap@;
                let x = json_to_vm(heap, &items[i]);
                proof {
                    assert forall|k: int| 0 <= k < i implies json_in_heap(heap@, #[trigger] vals@[k], items@[k]) by {
                        lemma_json_in_heap_grows(hb, heap@, vals@[k], items@[k]);
                    }
                    assert(heap@.subrange(0, h0.len() as int) =~= heap@.subrange(0, hb.len() as int).subrange(0, h0.len() as int));
                }
                vals.push(x);
                i += 1;
            }
            let ghost hb = heap@;
            let ghost vs = vals@;
            let r = heap.allocate(HeapObject::List(vals));
            proof {
                assert(heap@.subrange(0, hb.len() as int) =~= hb);
                assert forall|k: int| 0 <= k < items@.len() implies json_in_heap(heap@, #[trigger] vs[k], items@[k]) by {
                    lemma_json_in_heap_grows(hb, heap@, vs[k], items@[k]);
                }
                assert(heap@.subrange(0, h0.len() as int) =~= hb.subrange(0, h0.len() as int));
            }
            VmValue::List(r)
        },
        Json::Object(pairs) => {
            proof {
                assert(decreases_to!(*j => *pairs));
                assert forall|k: int| 0 <= k < pairs@.len() implies decreases_to!(*j => #[trigger] pairs@[k].1) by {
                    assert(decreases_to!(*pairs => pairs@));
                    assert(decreases_to!(pairs@ => pairs@[k]));
                    assert(decreases_to!(pairs@[k] => pairs@[k].1));
                }
            }
            let ghost h0 = heap@;
            let mut es: Vec<(String, VmValue)> = Vec::new();
            let mut i: usize = 0;
            while i < pairs.len()
                invariant
                    i <= pairs@.len(),
                    es@.len() == i,
                    heap.wf(),
                    h0.len() <= heap@.len(),
                    heap@.subrange(0, h0.len() as int) == h0,
                    json_wf(*j),
                    *j == Json::Object(*pairs),
                    forall|k: int| 0 <= k < pairs@.len() ==> decreases_to!(*j => #[trigger] pairs@[k].1),
                    forall|k: int| 0 <= k < pairs@.len() ==> json_wf(#[trigger] pairs@[k].1),
                    forall|k: int| 0 <= k < i ==> (#[trigger] es@[k]).0@ == pairs@[k].0@ && json_in_heap(heap@, es@[k].1, pairs@[k].1),
                decreases pairs@.len() - i,
            {
                assert(decreases_to!(*j => pairs@[i as int].1));
                let ghost hb = heap@;
                let x = json_to_vm(heap, &pairs[i].1);
                proof {
                    assert forall|k: int| 0 <= k < i implies (#[trigger] es@[k]).0@ == pairs@[k].0@ && json_in_heap(heap@, es@[k].1, pairs@[k].1) by {
                        lemma_json_in_heap_grows(hb, heap@, es@[k].1, pairs@[k].1);
                    }
                    assert(heap@.subrange(0, h0.len() as int) =~= heap@.subrange(0, hb.len() as int).subrange(0, h0.len() as int));
                }
                es.push((pairs[i].0.clone(), x));
                i += 1;
            }
            let ghost hb = heap@;
            let ghost vs = es@;
            assert(keys_unique(es@));
            let r = heap.allocate(HeapObject::MapObj(es));
            proof {
                assert(heap@.subrange(0, hb.len() as int) =~= hb);
                assert forall|k: int| 0 <= k < pairs@.len() implies (#[trigger] vs[k]).0@ == pairs@[k].0@ && json_in_heap(heap@, vs[k].1, pairs@[k].1) by {
                    lemma_json_in_heap_grows(hb, heap@, vs[k].1, pairs@[k].1);
                }
                assert(heap@.subrange(0, h0.len() as int) =~= hb.subrange(0, h0.len() as int));
            }
            VmValue::MapRef(r)
        },
    }
}

/// `JSON.parse`'s argument: the one string it is given, or the type error
/// for another kind of value or another number of arguments.
pub fn json_parse_input(args: &[VmValue], line: u32) -> (r: Result<String, VmError>)
    ensures
        args@.len() == 1 && args@[0] is Str ==> (r matches Ok(s) && s@ == args@[0]->Str_0@),
        args@.len() == 1 && !(args@[0] is Str) ==> (r matches Err(e) && is_type_error(
            e,
            "JSON.parse: input must be a string"@,
            line,
        )),
        args@.len() != 1 ==> (r matches Err(e) && is_type_error(
            e,
            "JSON.parse expects 1 argument, got "@ + nat_digits(args@.len() as nat),
            line,
        )),
{
    if args.len() == 1 {
        match &args[0] {
            VmValue::Str(s) => Ok(s.clone()),
            _ => Err(VmError::TypeError { message: String::from_str("JSON.parse: input must be a string"), line }),
        }
    } else {
        let mut m = String::from_str("JSON.parse expects 1 argument, got ");
        m.append(u64_to_string(args.len() as u64).as_str());
        Err(VmError::TypeError { message: m, line })
    }
}

} // verus!
