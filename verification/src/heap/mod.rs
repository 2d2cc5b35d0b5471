//! The heap: the objects and arrays of the running program, by reference.

use std::collections::{HashMap, HashSet};

use rand::RngCore;
use vstd::prelude::*;

use crate::heap::allocator::{Array, ArrayModel, ArrayType, Object, ObjectModel, array_wf, storable, stored, zero_element};
use crate::java::{Int, Reference, Value};

pub mod allocator;
pub mod class_info;
pub mod garbage_collector;
pub mod sync;

verus! {

broadcast use vstd::std_specs::hash::group_hash_axioms;

/// A value in the heap.
pub enum Heaped {
    Object(Object),
    Array(Array),
}

/// The model of a value in the heap.
pub enum HeapedModel {
    Object(ObjectModel),
    Array(ArrayModel),
}

impl View for Heaped {
    type V = HeapedModel;

    open spec fn view(&self) -> HeapedModel {
        match self {
            Heaped::Object(o) => HeapedModel::Object(o@),
            Heaped::Array(a) => HeapedModel::Array(a@),
        }
    }
}

/// Whether every array in the heap model `m` is one arrays hold.
pub open spec fn heap_wf(m: Map<u32, HeapedModel>) -> bool {
    forall|r: u32| #[trigger] m.contains_key(r) && m[r] is Array ==> array_wf(m[r]->Array_0)
}

/// Whether `r` refers to an array in the heap model `m`.
pub open spec fn is_array(m: Map<u32, HeapedModel>, r: u32) -> bool {
    m.contains_key(r) && m[r] is Array
}

/// Whether `r` refers to an object in the heap model `m`.
pub open spec fn is_object(m: Map<u32, HeapedModel>, r: u32) -> bool {
    m.contains_key(r) && m[r] is Object
}

/// The array `r` refers to in the heap model `m`.
pub open spec fn array_at(m: Map<u32, HeapedModel>, r: u32) -> ArrayModel {
    m[r]->Array_0
}

/// The heap.
pub struct Heap {
    references: HashMap<u32, Heaped>,
}

impl View for Heap {
    type V = Map<u32, HeapedModel>;

    closed spec fn view(&self) -> Map<u32, HeapedModel> {
        self.references@.map_values(|h: Heaped| h@)
    }
}

/// The reference `k` places after `start`, wrapping around.
pub open spec fn probe(start: u32, k: int) -> u32 {
    ((start as int + k) % 0x1_0000_0000) as u32
}

/// The first `t` references from `start` on, wrapping around.
pub open spec fn probes(start: u32, t: int) -> Set<u32> {
    Set::new(|r: u32| exists|k: int| 0 <= k < t && r == probe(start, k))
}

/// Up to one full turn, the references from a start are all distinct.
proof fn lemma_probes_len(start: u32, t: int)
    requires
        0 <= t <= 0x1_0000_0000,
    ensures
        probes(start, t).finite(),
        probes(start, t).len() == t,
    decreases t,
{
    if t == 0 {
        assert(probes(start, 0) =~= Set::empty());
    } else {
        lemma_probes_len(start, t - 1);
        let last = probe(start, t - 1);
        assert(!probes(start, t - 1).contains(last)) by {
            if probes(start, t - 1).contains(last) {
                let k = choose|k: int| 0 <= k < t - 1 && last == #[trigger] probe(start, k);
                assert(((start as int + k) % 0x1_0000_0000) == ((start as int + t - 1) % 0x1_0000_0000));
                assert(false) by (nonlinear_arith)
                    requires
                        0 <= k < t - 1,
                        t <= 0x1_0000_0000,
                        0 <= start,
                        ((start as int + k) % 0x1_0000_0000) == ((start as int + t - 1) % 0x1_0000_0000),
                ;
            }
        }
        assert(probes(start, t) =~= probes(start, t - 1).insert(last)) by {
            assert forall|r: u32| probes(start, t).contains(r) implies probes(start, t - 1).insert(last).contains(r) by {
                let k = choose|k: int| 0 <= k < t && r == #[trigger] probe(start, k);
                if k < t - 1 {
                    assert(probes(start, t - 1).contains(r));
                }
            }
            assert forall|r: u32| probes(start, t - 1).insert(last).contains(r) implies probes(start, t).contains(r) by {
                if r == last {
                    assert(0 <= t - 1 < t && r == probe(start, t - 1));
                } else {
                    let k = choose|k: int| 0 <= k < t - 1 && r == #[trigger] probe(start, k);
                    assert(0 <= k < t && r == probe(start, k));
                }
            }
        }
    }
}

/// The reference after `probe(start, k)` is the next probe.
proof fn lemma_probe_next(start: u32, k: int)
    requires
        k >= 0,
    ensures
        probe(start, k + 1) == (if probe(start, k) == u32::MAX { 0 } else { probe(start, k) + 1 }),
{
    let m: int = 0x1_0000_0000;
    let a = start as int + k;
    assert((a + 1) % m == (if a % m == m - 1 { 0 } else { a % m + 1 })) by (nonlinear_arith)
        requires
            m == 0x1_0000_0000,
            a >= 0,
    ;
}

/// The rand crate's thread-local generator, `rand::thread_rng().next_u32()`: a random
/// reference to start looking for a free one from. Nothing is known of the result.
#[verifier::external_body]
fn random_reference() -> u32 {
    rand::thread_rng().next_u32()
}

impl Heap {
    /// An empty heap.
    pub fn new() -> (h: Heap)
        ensures
            h@ == Map::<u32, HeapedModel>::empty(),
    {
        let h = Heap { references: HashMap::new() };
        proof {
            assert(h@ =~= Map::<u32, HeapedModel>::empty());
        }
        h
    }

    /// The number of values in the heap.
    pub fn len(&self) -> (n: usize)
        ensures
            n == self@.len(),
    {
        proof {
            assert(self@.dom() =~= self.references@.dom());
        }
        self.references.len()
    }

    /// The first reference from `start` on, wrapping around, that refers to nothing and is
    /// not the null reference 0.
    fn free_reference(&self, start: u32) -> (r: u32)
        requires
            self@.len() < u32::MAX,
        ensures
            !self@.contains_key(r),
            r != 0,
    {
        proof {
            assert(self@.dom() =~= self.references@.dom());
        }
        let n = self.references.len() as u64;
        let mut tries: u64 = 0;
        let mut next = start;
        while next == 0 || self.references.contains_key(&next)
            invariant
                n == self.references@.len(),
                n < u32::MAX,
                tries <= n + 1,
                next == probe(start, tries as int),
                forall|k: int|
                    0 <= k < tries ==> #[trigger] probe(start, k) == 0 || self.references@.contains_key(probe(start, k)),
            decreases n + 1 - tries,
        {
            proof {
                if tries == n + 1 {
                    let taken = self.references@.dom().insert(0);
                    lemma_probes_len(start, tries + 1);
                    assert(probes(start, tries + 1).subset_of(taken)) by {
                        assert forall|r: u32| probes(start, tries + 1).contains(r) implies taken.contains(r) by {
                            let k = choose|k: int| 0 <= k < tries + 1 && r == #[trigger] probe(start, k);
                            if k < tries {
                                assert(probe(start, k) == 0 || self.references@.contains_key(probe(start, k)));
                            }
                        }
                    }
                    assert(taken.len() <= n + 1);
                    vstd::set_lib::lemma_len_subset(probes(start, tries + 1), taken);
                    assert(false);
                }
            }
            proof {
                lemma_probe_next(start, tries as int);
            }
            tries += 1;
            next = next.wrapping_add(1);
        }
        next
    }

    /// Insert `heaped` at a reference that referred to nothing, chosen at random, and return
    /// that reference.
    fn insert(&mut self, heaped: Heaped) -> (r: Reference)
        requires
            old(self)@.len() < u32::MAX,
        ensures
            !old(self)@.contains_key(r.0),
            r.0 != 0,
            final(self)@ == old(self)@.insert(r.0, heaped@),
            final(self)@.len() == old(self)@.len() + 1,
    {
        let start = random_reference();
        let reference = self.free_reference(start);
        proof {
            assert(old(self)@.dom() =~= self.references@.dom());
        }
        self.references.insert(reference, heaped);
        proof {
            assert(final(self)@ =~= old(self)@.insert(reference, heaped@));
        }
        Reference(reference)
    }

    /// A new object of the class at `class` in the method area, with the given field values.
    pub fn new_object(&mut self, class: usize, fields: Vec<Value>) -> (r: Reference)
        requires
            old(self)@.len() < u32::MAX,
        ensures
            !old(self)@.contains_key(r.0),
            r.0 != 0,
            final(self)@ == old(self)@.insert(r.0, HeapedModel::Object(ObjectModel { class, fields: fields@ })),
            final(self)@.len() == old(self)@.len() + 1,
    {
        self.insert(Heaped::Object(Object::new(class, fields)))
    }

    /// Put `array` in the heap, at a new reference.
    pub fn insert_array(&mut self, array: Array) -> (r: Reference)
        requires
            old(self)@.len() < u32::MAX,
            heap_wf(old(self)@),
            array_wf(array@),
        ensures
            !old(self)@.contains_key(r.0),
            r.0 != 0,
            final(self)@ == old(self)@.insert(r.0, HeapedModel::Array(array@)),
            final(self)@.len() == old(self)@.len() + 1,
            heap_wf(final(self)@),
    {
        self.insert(Heaped::Array(array))
    }

    /// Set the field in slot `slot` of the object `reference` refers to.
    pub fn set_field(&mut self, reference: Reference, slot: usize, value: Value)
        requires
            is_object(old(self)@, reference.0),
            slot < old(self)@[reference.0]->Object_0.fields.len(),
        ensures
            final(self)@ == old(self)@.insert(
                reference.0,
                HeapedModel::Object(ObjectModel {
                    fields: old(self)@[reference.0]->Object_0.fields.update(slot as int, value),
                    ..old(self)@[reference.0]->Object_0
                }),
            ),
            heap_wf(old(self)@) ==> heap_wf(final(self)@),
            final(self)@.len() == old(self)@.len(),
    {
        let ghost m = self@;
        match self.references.remove(&reference.0) {
            Some(Heaped::Object(mut object)) => {
                object.set_field(slot, value);
                self.references.insert(reference.0, Heaped::Object(object));
                proof {
                    let o = m[reference.0]->Object_0;
                    assert(self@ =~= m.insert(
                        reference.0,
                        HeapedModel::Object(ObjectModel { fields: o.fields.update(slot as int, value), ..o }),
                    ));
                    assert(self@.dom() =~= m.dom());
                }
            },
            _ => unreached(),
        }
    }

    /// A new array of `length` elements of type `arr_type`, each its type's zero.
    pub fn new_array(&mut self, arr_type: ArrayType, length: Int) -> (r: Reference)
        requires
            old(self)@.len() < u32::MAX,
            heap_wf(old(self)@),
            length.0 >= 0,
        ensures
            !old(self)@.contains_key(r.0),
            r.0 != 0,
            final(self)@ == old(self)@.insert(
                r.0,
                HeapedModel::Array(ArrayModel {
                    component: arr_type,
                    elements: Seq::new(length.0 as nat, |i: int| zero_element(arr_type)),
                }),
            ),
            final(self)@.len() == old(self)@.len() + 1,
            heap_wf(final(self)@),
    {
        let array = Array::new(arr_type, length);
        self.insert(Heaped::Array(array))
    }

    /// Whether `reference` refers to an object.
    pub fn holds_object(&self, reference: Reference) -> (b: bool)
        ensures
            b == is_object(self@, reference.0),
    {
        match self.references.get(&reference.0) {
            Some(Heaped::Object(_)) => true,
            _ => false,
        }
    }

    /// Whether `reference` refers to an array.
    pub fn holds_array(&self, reference: Reference) -> (b: bool)
        ensures
            b == is_array(self@, reference.0),
    {
        match self.references.get(&reference.0) {
            Some(Heaped::Array(_)) => true,
            _ => false,
        }
    }

    /// The value `reference` refers to.
    pub fn get(&self, reference: Reference) -> (h: &Heaped)
        requires
            self@.contains_key(reference.0),
        ensures
            h@ == self@[reference.0],
    {
        self.references.get(&reference.0).unwrap()
    }

    /// The array `reference` refers to.
    pub fn get_array(&self, reference: Reference) -> (a: &Array)
        requires
            is_array(self@, reference.0),
        ensures
            a@ == array_at(self@, reference.0),
    {
        match self.references.get(&reference.0).unwrap() {
            Heaped::Array(array) => array,
            Heaped::Object(_) => unreached(),
        }
    }

    /// The object `reference` refers to.
    pub fn get_object(&self, reference: Reference) -> (o: &Object)
        requires
            is_object(self@, reference.0),
        ensures
            o@ == self@[reference.0]->Object_0,
    {
        match self.references.get(&reference.0).unwrap() {
            Heaped::Object(object) => object,
            Heaped::Array(_) => unreached(),
        }
    }

    /// Store `value` at `index` of the array `reference` refers to, narrowed to its element
    /// type.
    pub fn set_element(&mut self, reference: Reference, index: Int, value: Value)
        requires
            heap_wf(old(self)@),
            is_array(old(self)@, reference.0),
            0 <= index.0 < array_at(old(self)@, reference.0).elements.len(),
            storable(array_at(old(self)@, reference.0).component, value),
        ensures
            final(self)@ == old(self)@.insert(
                reference.0,
                HeapedModel::Array(ArrayModel {
                    elements: array_at(old(self)@, reference.0).elements.update(
                        index.0 as int,
                        stored(array_at(old(self)@, reference.0).component, value),
                    ),
                    ..array_at(old(self)@, reference.0)
                }),
            ),
            heap_wf(final(self)@),
    {
        let ghost m = self@;
        assert(m.contains_key(reference.0));
        match self.references.remove(&reference.0) {
            Some(Heaped::Array(mut array)) => {
                array.set_element(index, value);
                self.references.insert(reference.0, Heaped::Array(array));
                proof {
                    let new_model = HeapedModel::Array(ArrayModel {
                        elements: array_at(m, reference.0).elements.update(
                            index.0 as int,
                            stored(array_at(m, reference.0).component, value),
                        ),
                        ..array_at(m, reference.0)
                    });
                    assert(self@ =~= m.insert(reference.0, new_model));
                }
            },
            _ => unreached(),
        }
    }
}


impl Heap {
    /// A heap holds finitely many values.
    pub proof fn lemma_finite(&self)
        ensures
            self@.dom().finite(),
    {
        assert(self@.dom() =~= self.references@.dom());
    }

    /// Keep only the values whose references are in `retain`.
    pub fn retain(&mut self, retain: &HashSet<u32>)
        ensures
            final(self)@ == old(self)@.restrict(retain@),
    {
        let ghost m = self@;
        let mut kept: HashMap<u32, Heaped> = HashMap::new();
        let ghost mut seen: Seq<u32> = Seq::empty();
        for r in it: retain.iter()
            invariant
                it.seq().unref().to_set() == retain@,
                seen == it.seq().take(it.index() as int).unref(),
                kept@.map_values(|h: Heaped| h@) == m.restrict(seen.to_set()),
                self@ == m.remove_keys(seen.to_set()),
                it.index() == it.seq().len() ==> seen.to_set() == retain@,
        {
            let ghost before_kept = kept@.map_values(|h: Heaped| h@);
            let ghost before_self = self@;
            let ghost raw = self.references@;
            let ghost previous = seen;
            proof {
                seen = seen.push(*r);
                previous.lemma_push_to_set_commute(*r);
                assert(seen.to_set() == previous.to_set().insert(*r));
            }
            match self.references.remove(r) {
                Some(h) => {
                    proof {
                        assert(raw.contains_key(*r) && raw[*r] == h);
                        assert(before_self == raw.map_values(|h: Heaped| h@));
                        assert(before_self[*r] == h@);
                        assert(h@ == m[*r]);
                    }
                    kept.insert(*r, h);
                    proof {
                        let now = kept@.map_values(|h: Heaped| h@);
                        assert(now =~= before_kept.insert(*r, h@));
                        assert(before_self == m.remove_keys(previous.to_set()));
                        assert(before_self.contains_key(*r));
                        assert(m.remove_keys(previous.to_set()).dom().contains(*r));
                        assert(m.contains_key(*r));
                        assert forall|k: u32| #[trigger] now.contains_key(k) <==> m.restrict(seen.to_set()).contains_key(k) by {
                            if k == *r {
                            } else {
                                assert(seen.to_set().contains(k) <==> previous.to_set().contains(k));
                            }
                        }
                        assert(now =~= m.restrict(seen.to_set()));
                    }
                },
                None => {
                    proof {
                        assert(!before_self.contains_key(*r));
                        assert(kept@.map_values(|h: Heaped| h@) =~= m.restrict(seen.to_set()));
                    }
                },
            }
            proof {
                assert(self.references@ == raw.remove(*r));
                assert(before_self == m.remove_keys(previous.to_set()));
                assert(before_self == raw.map_values(|h: Heaped| h@));
                assert forall|k: u32| #[trigger] self@.contains_key(k) <==> m.remove_keys(seen.to_set()).contains_key(k) by {
                    assert(self@.contains_key(k) <==> (raw.contains_key(k) && k != *r));
                    assert(raw.contains_key(k) <==> before_self.contains_key(k));
                    assert(before_self.contains_key(k) <==> (m.contains_key(k) && !previous.to_set().contains(k)));
                    assert(seen.to_set().contains(k) <==> (previous.to_set().contains(k) || k == *r));
                }
                assert forall|k: u32| #[trigger] self@.contains_key(k) implies self@[k] == m.remove_keys(
                    seen.to_set(),
                )[k] by {
                    assert(self@[k] == raw[k]@);
                    assert(before_self[k] == raw[k]@);
                    assert(before_self[k] == m[k]);
                }
                assert(self@ =~= m.remove_keys(seen.to_set()));
            }
            assert(seen =~= it.seq().take(it.index() + 1).unref());
            assert(it.seq().take(it.seq().len() as int) =~= it.seq());
        }
        self.references = kept;
    }
}

} // verus!
