//! The safe point at which threads stop for a garbage collection.
//!
//! The safe point decides and keeps count; the waiting is left to its caller: a thread that
//! starts a collection waits until every registered thread handed in its roots, and a thread
//! that entered the safe point waits until the collection ends.

use std::collections::HashSet;

use vstd::prelude::*;

use crate::heap::garbage_collector::{roots, thread_roots};
use crate::thread::Thread;

verus! {

broadcast use vstd::std_specs::hash::group_hash_axioms;

/// The model of a safe point.
pub struct SafePointState {
    /// Whether a collection asked the threads to stop.
    pub requested: bool,
    /// The number of threads registered with the virtual machine.
    pub num_threads: usize,
    /// The roots handed in by each thread that stopped for the collection.
    pub waiting: Seq<Set<u32>>,
}

/// The safe point of the virtual machine.
pub struct SafePoint {
    requested: bool,
    num_threads: usize,
    waiting_threads: Vec<HashSet<u32>>,
}

impl View for SafePoint {
    type V = SafePointState;

    closed spec fn view(&self) -> SafePointState {
        SafePointState {
            requested: self.requested,
            num_threads: self.num_threads,
            waiting: self.waiting_threads@.map_values(|s: HashSet<u32>| s@),
        }
    }
}

/// Every root handed in to a safe point: the union of its sets.
pub open spec fn all_roots(sets: Seq<Set<u32>>) -> Set<u32> {
    Set::new(|r: u32| exists|i: int| 0 <= i < sets.len() && (#[trigger] sets[i]).contains(r))
}

impl SafePoint {
    /// A safe point with no thread registered and no collection asked for.
    pub fn new() -> (s: Self)
        ensures
            s@ == (SafePointState { requested: false, num_threads: 0, waiting: Seq::empty() }),
    {
        let s = SafePoint { requested: false, num_threads: 0, waiting_threads: Vec::new() };
        proof {
            assert(s@.waiting =~= Seq::<Set<u32>>::empty());
        }
        s
    }

    /// Count one more thread; the count wraps around on overflow.
    pub fn register_thread(&mut self)
        ensures
            final(self)@ == (SafePointState {
                num_threads: old(self)@.num_threads.wrapping_add(1),
                ..old(self)@
            }),
    {
        self.num_threads = self.num_threads.wrapping_add(1);
    }

    /// Count one thread less; the count wraps around below zero.
    pub fn remove_thread(&mut self)
        ensures
            final(self)@ == (SafePointState {
                num_threads: old(self)@.num_threads.wrapping_sub(1),
                ..old(self)@
            }),
    {
        self.num_threads = self.num_threads.wrapping_sub(1);
    }

    /// Whether a collection asked the threads to stop.
    pub fn is_safe_req(&self) -> (requested: bool)
        ensures
            requested == self@.requested,
    {
        self.requested
    }

    /// The number of threads that handed in their roots.
    pub fn waiting_count(&self) -> (n: usize)
        ensures
            n == self@.waiting.len(),
    {
        self.waiting_threads.len()
    }

    /// Ask the threads to stop for a collection started by `thread`, and hand in its roots;
    /// returns the number of threads registered, which is how many must have handed in their
    /// roots before the collection goes on.
    pub fn start_gc(&mut self, thread: &Thread) -> (num_threads: usize)
        ensures
            num_threads == old(self)@.num_threads,
            final(self)@ == (SafePointState {
                requested: true,
                num_threads: old(self)@.num_threads,
                waiting: old(self)@.waiting.push(roots(thread@, thread.spec_reference())),
            }),
    {
        self.requested = true;
        let roots = thread_roots(thread);
        self.waiting_threads.push(roots);
        proof {
            assert(final(self)@.waiting =~= old(self)@.waiting.push(roots@));
        }
        self.num_threads
    }

    /// End the collection: the stopped threads may go on.
    pub fn end_gc(&mut self)
        ensures
            final(self)@ == (SafePointState { requested: false, ..old(self)@ }),
    {
        self.requested = false;
    }

    /// Let `thread` pass the safe point: when a collection asked the threads to stop, it hands
    /// in its roots, and the result is true, telling the thread to wait for the collection to
    /// end.
    pub fn enter_safe_point(&mut self, thread: &Thread) -> (must_wait: bool)
        ensures
            must_wait == old(self)@.requested,
            final(self)@ == if must_wait {
                SafePointState {
                    waiting: old(self)@.waiting.push(roots(thread@, thread.spec_reference())),
                    ..old(self)@
                }
            } else {
                old(self)@
            },
    {
        if self.requested {
            let roots = thread_roots(thread);
            self.waiting_threads.push(roots);
            proof {
                assert(final(self)@.waiting =~= old(self)@.waiting.push(roots@));
            }
            true
        } else {
            false
        }
    }

    /// Take every root handed in, emptying the safe point's collection of them.
    pub fn consume_roots(&mut self) -> (refs: HashSet<u32>)
        ensures
            refs@ == all_roots(old(self)@.waiting),
            final(self)@ == (SafePointState { waiting: Seq::empty(), ..old(self)@ }),
    {
        let ghost sets = self@.waiting;
        let mut refs: HashSet<u32> = HashSet::new();
        let mut i: usize = 0;
        while i < self.waiting_threads.len()
            invariant
                i <= self.waiting_threads.len(),
                sets == self@.waiting,
                refs@ == Set::new(|r: u32| exists|j: int| 0 <= j < i && (#[trigger] sets[j]).contains(r)),
            decreases self.waiting_threads.len() - i,
        {
            let set = &self.waiting_threads[i];
            let ghost before = refs@;
            let ghost s = set@;
            assert(s == sets[i as int]);
            let ghost mut seen: Seq<u32> = Seq::empty();
            for r in it: set.iter()
                invariant
                    it.seq().unref().to_set() == s,
                    seen == it.seq().take(it.index() as int).unref(),
                    refs@ == before + seen.to_set(),
                    it.index() == it.seq().len() ==> seen.to_set() == s,
            {
                refs.insert(*r);
                proof {
                    let previous = seen;
                    seen = seen.push(*r);
                    previous.lemma_push_to_set_commute(*r);
                }
                assert(seen =~= it.seq().take(it.index() + 1).unref());
                assert(refs@ =~= before + seen.to_set());
                assert(it.seq().take(it.seq().len() as int) =~= it.seq());
            }
            proof {
                assert(refs@ =~= Set::new(|r: u32| exists|j: int| 0 <= j < i + 1 && (#[trigger] sets[j]).contains(r)));
            }
            i += 1;
        }
        self.waiting_threads = Vec::new();
        proof {
            assert(refs@ =~= all_roots(sets));
            assert(final(self)@.waiting =~= Seq::<Set<u32>>::empty());
        }
        refs
    }
}

} // verus!
