//! The object heap: objects are allocated into slots and named by `GcRef`.
use vstd::prelude::*;

use crate::vm::{ClassObject, HeapObject, NativeMethod, ObjView, VmValue};

verus! {

/// A reference to a heap slot.
#[derive(Debug, Clone, Copy, PartialEq, Eq, Structural)]
pub struct GcRef(pub usize);

/// A heap of objects; a reference names the slot its object was allocated in.
pub struct GcHeap<T> {
    objects: Vec<T>,
}

/// Keys of a map's entries are pairwise distinct.
pub open spec fn keys_unique(entries: Seq<(String, VmValue)>) -> bool {
    forall|i: int, j: int|
        0 <= i < entries.len() && 0 <= j < entries.len() && i != j ==> #[trigger] entries[i].0@
            != #[trigger] entries[j].0@
}

/// Index of the entry whose key is `k`, if any.
pub open spec fn entry_index(entries: Seq<(String, VmValue)>, k: Seq<char>) -> Option<int> {
    if exists|i: int| 0 <= i < entries.len() && #[trigger] entries[i].0@ == k {
        Some(choose|i: int| 0 <= i < entries.len() && #[trigger] entries[i].0@ == k)
    } else {
        None
    }
}

/// The value bound to key `k`, if any.
pub open spec fn map_lookup(entries: Seq<(String, VmValue)>, k: Seq<char>) -> Option<VmValue> {
    match entry_index(entries, k) {
        Some(i) => Some(entries[i].1),
        None => None,
    }
}

impl GcHeap<HeapObject> {
    pub closed spec fn view(&self) -> Seq<ObjView> {
        self.objects@.map_values(|o: HeapObject| o.view())
    }

    /// Every map on the heap has pairwise distinct keys.
    pub open spec fn wf(&self) -> bool {
        forall|i: int|
            0 <= i < self@.len() ==> (#[trigger] self@[i] matches ObjView::MapObj(e) ==> keys_unique(
                e,
            ))
    }

    pub open spec fn is_list(&self, r: GcRef) -> bool {
        r.0 < self@.len() && self@[r.0 as int] is List
    }

    pub open spec fn is_map(&self, r: GcRef) -> bool {
        r.0 < self@.len() && self@[r.0 as int] is MapObj
    }

    pub open spec fn is_set(&self, r: GcRef) -> bool {
        r.0 < self@.len() && self@[r.0 as int] is SetObj
    }

    pub open spec fn is_class(&self, r: GcRef) -> bool {
        r.0 < self@.len() && self@[r.0 as int] is Class
    }

    pub open spec fn is_fields(&self, r: GcRef) -> bool {
        r.0 < self@.len() && self@[r.0 as int] is Fields
    }

    pub open spec fn fields(&self, r: GcRef) -> Seq<(String, VmValue)> {
        self@[r.0 as int]->Fields_0
    }

    pub open spec fn list(&self, r: GcRef) -> Seq<VmValue> {
        self@[r.0 as int]->List_0
    }

    pub open spec fn map(&self, r: GcRef) -> Seq<(String, VmValue)> {
        self@[r.0 as int]->MapObj_0
    }

    pub open spec fn set(&self, r: GcRef) -> Seq<VmValue> {
        self@[r.0 as int]->SetObj_0
    }

    /// An empty heap.
    pub fn new() -> (h: Self)
        ensures
            h@ == Seq::<ObjView>::empty(),
            h.wf(),
    {
        let h = GcHeap { objects: Vec::new() };
        assert(h@ =~= Seq::<ObjView>::empty());
        h
    }

    /// Number of allocated slots.
    pub fn len(&self) -> (n: usize)
        ensures
            n == self@.len(),
    {
        self.objects.len()
    }

    /// Allocate `obj` in a fresh slot.
    pub fn allocate(&mut self, obj: HeapObject) -> (r: GcRef)
        requires
            obj matches HeapObject::MapObj(e) ==> keys_unique(e@),
            old(self).wf(),
        ensures
            r.0 == old(self)@.len(),
            final(self)@ == old(self)@.push(obj.view()),
            final(self).wf(),
    {
        let r = GcRef(self.objects.len());
        let ghost o = self@;
        self.objects.push(obj);
        assert(self@ =~= o.push(obj.view()));
        r
    }

    /// The object in slot `r`.
    pub fn get(&self, r: GcRef) -> (o: &HeapObject)
        requires
            r.0 < self@.len(),
        ensures
            o.view() == self@[r.0 as int],
    {
        &self.objects[r.0]
    }

    /// Replace the object in slot `r`.
    pub fn replace(&mut self, r: GcRef, obj: HeapObject) -> (prev: HeapObject)
        requires
            r.0 < old(self)@.len(),
            old(self).wf(),
            obj matches HeapObject::MapObj(e) ==> keys_unique(e@),
        ensures
            prev.view() == old(self)@[r.0 as int],
            final(self)@ == old(self)@.update(r.0 as int, obj.view()),
            final(self).wf(),
    {
        let ghost o = self@;
        let mut tmp = obj;
        std::mem::swap(&mut tmp, &mut self.objects[r.0]);
        assert(self@ =~= o.update(r.0 as int, obj.view()));
        tmp
    }

    /// The elements of the list in slot `r`.
    pub fn get_list(&self, r: GcRef) -> (v: &Vec<VmValue>)
        requires
            self.is_list(r),
        ensures
            v@ == self.list(r),
    {
        match &self.objects[r.0] {
            HeapObject::List(v) => v,
            _ => {
                vstd::pervasive::unreached()
            },
        }
    }

    /// The entries of the map in slot `r`.
    pub fn get_map(&self, r: GcRef) -> (v: &Vec<(String, VmValue)>)
        requires
            self.is_map(r),
        ensures
            v@ == self.map(r),
    {
        match &self.objects[r.0] {
            HeapObject::MapObj(v) => v,
            _ => {
                vstd::pervasive::unreached()
            },
        }
    }

    /// The fields of the instance in slot `r`.
    pub fn get_fields(&self, r: GcRef) -> (v: &Vec<(String, VmValue)>)
        requires
            self.is_fields(r),
        ensures
            v@ == self.fields(r),
    {
        match &self.objects[r.0] {
            HeapObject::Fields(v) => v,
            _ => {
                vstd::pervasive::unreached()
            },
        }
    }

    /// The elements of the set in slot `r`.
    pub fn get_set(&self, r: GcRef) -> (v: &Vec<VmValue>)
        requires
            self.is_set(r),
        ensures
            v@ == self.set(r),
    {
        match &self.objects[r.0] {
            HeapObject::SetObj(v) => v,
            _ => {
                vstd::pervasive::unreached()
            },
        }
    }
}


impl GcHeap<HeapObject> {
    /// Append `x` to the list in slot `r`.
    pub fn list_push(&mut self, r: GcRef, x: VmValue)
        requires
            old(self).is_list(r),
            old(self).wf(),
        ensures
            final(self)@ == old(self)@.update(r.0 as int, ObjView::List(old(self).list(r).push(x))),
            final(self).wf(),
    {
        let prev = self.replace(r, HeapObject::List(Vec::new()));
        match prev {
            HeapObject::List(mut v) => {
                v.push(x);
                self.replace(r, HeapObject::List(v));
            },
            _ => vstd::pervasive::unreached(),
        }
    }

    /// Insert `x` at the front of the list in slot `r`.
    pub fn list_push_front(&mut self, r: GcRef, x: VmValue)
        requires
            old(self).is_list(r),
            old(self).wf(),
        ensures
            final(self)@ == old(self)@.update(
                r.0 as int,
                ObjView::List(seq![x] + old(self).list(r)),
            ),
            final(self).wf(),
    {
        let prev = self.replace(r, HeapObject::List(Vec::new()));
        match prev {
            HeapObject::List(mut v) => {
                let ghost old_v = v@;
                v.insert(0, x);
                assert(v@ =~= seq![x] + old_v);
                self.replace(r, HeapObject::List(v));
            },
            _ => vstd::pervasive::unreached(),
        }
    }

    /// Remove and return the last element of the list in slot `r`.
    pub fn list_pop(&mut self, r: GcRef) -> (res: Option<VmValue>)
        requires
            old(self).is_list(r),
            old(self).wf(),
        ensures
            old(self).list(r).len() == 0 ==> res is None && final(self)@ == old(self)@,
            old(self).list(r).len() > 0 ==> res == Some(old(self).list(r).last()) && final(self)@
                == old(self)@.update(r.0 as int, ObjView::List(old(self).list(r).drop_last())),
            final(self).wf(),
    {
        let ghost o = self@;
        let prev = self.replace(r, HeapObject::List(Vec::new()));
        match prev {
            HeapObject::List(mut v) => {
                let ghost old_v = v@;
                let res = v.pop();
                self.replace(r, HeapObject::List(v));
                proof {
                    if old_v.len() == 0 {
                        assert(self@ =~= o);
                    } else {
                        assert(v@ =~= old_v.drop_last());
                    }
                }
                res
            },
            _ => vstd::pervasive::unreached(),
        }
    }

    /// Append all of `items` to the list in slot `r`.
    pub fn list_extend(&mut self, r: GcRef, items: Vec<VmValue>)
        requires
            old(self).is_list(r),
            old(self).wf(),
        ensures
            final(self)@ == old(self)@.update(r.0 as int, ObjView::List(old(self).list(r) + items@)),
            final(self).wf(),
    {
        let prev = self.replace(r, HeapObject::List(Vec::new()));
        match prev {
            HeapObject::List(mut v) => {
                let ghost old_v = v@;
                let ghost it = items@;
                let mut items = items;
                v.append(&mut items);
                assert(v@ =~= old_v + it);
                self.replace(r, HeapObject::List(v));
            },
            _ => vstd::pervasive::unreached(),
        }
    }

    /// Append `x` to the set in slot `r`.
    pub fn set_push(&mut self, r: GcRef, x: VmValue)
        requires
            old(self).is_set(r),
            old(self).wf(),
        ensures
            final(self)@ == old(self)@.update(r.0 as int, ObjView::SetObj(old(self).set(r).push(x))),
            final(self).wf(),
    {
        let prev = self.replace(r, HeapObject::SetObj(Vec::new()));
        match prev {
            HeapObject::SetObj(mut v) => {
                v.push(x);
                self.replace(r, HeapObject::SetObj(v));
            },
            _ => vstd::pervasive::unreached(),
        }
    }

    /// Remove the element at index `i` of the set in slot `r`.
    pub fn set_remove_at(&mut self, r: GcRef, i: usize)
        requires
            old(self).is_set(r),
            old(self).wf(),
            i < old(self).set(r).len(),
        ensures
            final(self)@ == old(self)@.update(
                r.0 as int,
                ObjView::SetObj(old(self).set(r).remove(i as int)),
            ),
            final(self).wf(),
    {
        let prev = self.replace(r, HeapObject::SetObj(Vec::new()));
        match prev {
            HeapObject::SetObj(mut v) => {
                v.remove(i);
                self.replace(r, HeapObject::SetObj(v));
            },
            _ => vstd::pervasive::unreached(),
        }
    }

    /// Bind `k` to `x` in the map in slot `r`: an existing entry for `k` has
    /// its value replaced in place; otherwise the entry is appended.
    pub fn map_insert(&mut self, r: GcRef, k: String, x: VmValue)
        requires
            old(self).is_map(r),
            old(self).wf(),
        ensures
            final(self)@ == old(self)@.update(
                r.0 as int,
                ObjView::MapObj(map_inserted(old(self).map(r), k, x)),
            ),
            final(self).wf(),
    {
        let prev = self.replace(r, HeapObject::MapObj(Vec::new()));
        match prev {
            HeapObject::MapObj(mut v) => {
                let ghost old_v = v@;
                let idx = find_key(&v, k.as_str());
                match idx {
                    Some(i) => {
                        let key = v[i].0.clone();
                        v.set(i, (key, x));
                        assert(v@ =~= old_v.update(i as int, (old_v[i as int].0, x)));
                    },
                    None => {
                        v.push((k, x));
                    },
                }
                proof {
                    lemma_entry_index_of_unique(old_v, k@);
                    assert(keys_unique(v@)) by {
                        assert forall|a: int, b: int|
                            0 <= a < v@.len() && 0 <= b < v@.len() && a != b implies #[trigger] v@[a].0@
                            != #[trigger] v@[b].0@ by {
                            if a < old_v.len() && b < old_v.len() {
                                assert(v@[a].0@ == old_v[a].0@);
                                assert(v@[b].0@ == old_v[b].0@);
                            }
                        }
                    }
                }
                self.replace(r, HeapObject::MapObj(v));
            },
            _ => vstd::pervasive::unreached(),
        }
    }

    /// Remove the entry for `k` from the map in slot `r`, returning its value.
    pub fn map_remove(&mut self, r: GcRef, k: &str) -> (res: Option<VmValue>)
        requires
            old(self).is_map(r),
            old(self).wf(),
        ensures
            res == map_lookup(old(self).map(r), k@),
            final(self)@ == old(self)@.update(
                r.0 as int,
                ObjView::MapObj(map_removed(old(self).map(r), k@)),
            ),
            final(self).wf(),
    {
        let prev = self.replace(r, HeapObject::MapObj(Vec::new()));
        match prev {
            HeapObject::MapObj(mut v) => {
                let ghost old_v = v@;
                proof {
                    lemma_entry_index_of_unique(old_v, k@);
                }
                let idx = find_key(&v, k);
                let res = match idx {
                    Some(i) => {
                        let (_, val) = v.remove(i);
                        Some(val)
                    },
                    None => None,
                };
                proof {
                    assert(keys_unique(v@)) by {
                        assert forall|a: int, b: int|
                            0 <= a < v@.len() && 0 <= b < v@.len() && a != b implies #[trigger] v@[a].0@
                            != #[trigger] v@[b].0@ by {
                            if let Some(i) = idx {
                                let a2 = if a < i { a } else { a + 1 };
                                let b2 = if b < i { b } else { b + 1 };
                                assert(v@[a] == old_v[a2]);
                                assert(v@[b] == old_v[b2]);
                            } else {
                                assert(v@[a] == old_v[a]);
                            }
                        }
                    }
                }
                self.replace(r, HeapObject::MapObj(v));
                res
            },
            _ => vstd::pervasive::unreached(),
        }
    }
}

/// The entries after binding `k` to `x`.
pub open spec fn map_inserted(entries: Seq<(String, VmValue)>, k: String, x: VmValue) -> Seq<
    (String, VmValue),
> {
    match entry_index(entries, k@) {
        Some(i) => entries.update(i, (entries[i].0, x)),
        None => entries.push((k, x)),
    }
}

/// The entries after removing the entry for `k`.
pub open spec fn map_removed(entries: Seq<(String, VmValue)>, k: Seq<char>) -> Seq<
    (String, VmValue),
> {
    match entry_index(entries, k) {
        Some(i) => entries.remove(i),
        None => entries,
    }
}

/// With distinct keys, the entry for a key is the unique one carrying it.
pub proof fn lemma_entry_index_of_unique(entries: Seq<(String, VmValue)>, k: Seq<char>)
    requires
        keys_unique(entries),
    ensures
        entry_index(entries, k) matches Some(i) ==> 0 <= i < entries.len() && entries[i].0@ == k
            && forall|j: int| 0 <= j < entries.len() && j != i ==> #[trigger] entries[j].0@ != k,
        entry_index(entries, k) is None ==> forall|j: int|
            0 <= j < entries.len() ==> #[trigger] entries[j].0@ != k,
{
}

/// Index of the entry whose key is `k`.
pub fn find_key(entries: &Vec<(String, VmValue)>, k: &str) -> (r: Option<usize>)
    requires
        keys_unique(entries@),
    ensures
        match r {
            Some(i) => entry_index(entries@, k@) == Some(i as int),
            None => entry_index(entries@, k@) is None,
        },
{
    proof {
        lemma_entry_index_of_unique(entries@, k@);
    }
    let key = String::from_str(k);
    let mut i: usize = 0;
    while i < entries.len()
        invariant
            i <= entries.len(),
            key@ == k@,
            keys_unique(entries@),
            forall|j: int| 0 <= j < i ==> #[trigger] entries@[j].0@ != k@,
        decreases entries.len() - i,
    {
        if entries[i].0 == key {
            proof {
                lemma_entry_index_of_unique(entries@, k@);
            }
            return Some(i);
        }
        i += 1;
    }
    None
}


impl GcHeap<HeapObject> {
    /// Bind `m` on the class object in slot `r`: as a class method when
    /// `on_class`, else as an instance method.
    pub fn class_bind(&mut self, r: GcRef, m: NativeMethod, on_class: bool)
        requires
            old(self).is_class(r),
            old(self).wf(),
        ensures
            final(self)@ == old(self)@.update(r.0 as int, class_bound(old(self)@[r.0 as int], m, on_class)),
            final(self).wf(),
    {
        let ghost o = self@;
        let mut tmp = HeapObject::List(Vec::new());
        std::mem::swap(&mut tmp, &mut self.objects[r.0]);
        let obj = match tmp {
            HeapObject::Class(c) => {
                let mut c = c;
                if on_class {
                    c.class_methods.push(m);
                } else {
                    c.methods.push(m);
                }
                HeapObject::Class(c)
            },
            other => other,
        };
        self.objects.set(r.0, obj);
        assert(self@ =~= o.update(r.0 as int, class_bound(o[r.0 as int], m, on_class)));
    }
}

/// A class object with `m` bound on it.
pub open spec fn class_bound(o: ObjView, m: NativeMethod, on_class: bool) -> ObjView {
    match o {
        ObjView::Class { name, methods, class_methods } => if on_class {
            ObjView::Class { name, methods, class_methods: class_methods.push(m) }
        } else {
            ObjView::Class { name, methods: methods.push(m), class_methods }
        },
        _ => o,
    }
}

} // verus!
