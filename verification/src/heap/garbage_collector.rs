//! What the garbage collector starts from: the references a thread can reach directly, and
//! the memory it copies objects into.

use std::collections::HashSet;

use vstd::prelude::*;

use crate::heap::allocator::ArrayType;
use crate::heap::{Heap, Heaped, HeapedModel, heap_wf};
use crate::java::{Int, Reference, Value};
use crate::thread::{FrameModel, Thread};

verus! {

broadcast use vstd::std_specs::hash::group_hash_axioms;

/// The default heap size of the openjdk: 1280MB.
pub const HEAP_SIZE: usize = 1342177280;

/// Whether `v` is a reference to `r`.
pub open spec fn refers_to(v: Value, r: u32) -> bool {
    v == Value::Reference(Reference(r))
}

/// Whether the frame `f` holds a reference to `r` in a local variable or on its operand stack.
pub open spec fn frame_holds(f: FrameModel, r: u32) -> bool {
    (exists|i: int| 0 <= i < f.locals.len() && refers_to(#[trigger] f.locals[i], r)) || (exists|i: int|
        0 <= i < f.stack.len() && refers_to(#[trigger] f.stack[i], r))
}

/// The roots of a thread whose frames are `frames` and whose own object is `reference`: the
/// objects the thread refers to directly, not counting null.
pub open spec fn roots(frames: Seq<FrameModel>, reference: Option<Reference>) -> Set<u32> {
    Set::new(
        |r: u32|
            r != 0 && ((reference == Some(Reference(r))) || exists|k: int|
                0 <= k < frames.len() && frame_holds(#[trigger] frames[k], r)),
    )
}

/// Get all the root objects that a thread has access to.
pub fn thread_roots(thread: &Thread) -> (refs: HashSet<u32>)
    ensures
        refs@ == roots(thread@, thread.spec_reference()),
{
    let mut refs: HashSet<u32> = HashSet::new();
    let ghost frames = thread@;
    let ghost reference = thread.spec_reference();

    // The thread instance for this thread itself.
    match thread.reference() {
        Some(r) => {
            if r.0 != 0 {
                refs.insert(r.0);
            }
        },
        None => {},
    }

    // Get all the local vars and operand stack references.
    let depth = thread.depth();
    let mut k: usize = 0;
    while k < depth
        invariant
            k <= depth == frames.len(),
            frames == thread@,
            reference == thread.spec_reference(),
            refs@ == Set::new(
                |r: u32|
                    r != 0 && ((reference == Some(Reference(r))) || exists|j: int|
                        0 <= j < k && frame_holds(#[trigger] frames[j], r)),
            ),
        decreases depth - k,
    {
        let frame = thread.frame(k);
        let ghost f = frame@;
        let ghost before = refs@;
        let n = frame.local_vars.len();
        let mut i: usize = 0;
        while i < n
            invariant
                i <= n == f.locals.len(),
                f == frame@,
                refs@ == before + Set::new(
                    |r: u32| r != 0 && exists|j: int| 0 <= j < i && refers_to(#[trigger] f.locals[j], r),
                ),
            decreases n - i,
        {
            let v = frame.local_vars.get(i);
            let ghost previous = refs@;
            match v {
                Value::Reference(r) => {
                    if r.0 != 0 {
                        refs.insert(r.0);
                    }
                },
                _ => {},
            }
            proof {
                assert(refs@ =~= before + Set::new(
                    |r: u32| r != 0 && exists|j: int| 0 <= j < i + 1 && refers_to(#[trigger] f.locals[j], r),
                )) by {
                    assert forall|r: u32| #![auto] refs@.contains(r) implies before.contains(r) || (r != 0
                        && exists|j: int| 0 <= j < i + 1 && refers_to(#[trigger] f.locals[j], r)) by {
                        if !previous.contains(r) {
                            assert(refers_to(f.locals[i as int], r));
                        }
                    }
                    assert forall|r: u32| #![auto] (r != 0 && exists|j: int|
                        0 <= j < i + 1 && refers_to(#[trigger] f.locals[j], r)) implies refs@.contains(r) by {
                        let j = choose|j: int| 0 <= j < i + 1 && refers_to(#[trigger] f.locals[j], r);
                        if j < i {
                            assert(previous.contains(r));
                        }
                    }
                }
            }
            i += 1;
        }
        let ghost middle = refs@;
        let m = frame.operand_stack.len();
        let mut i: usize = 0;
        while i < m
            invariant
                i <= m == f.stack.len(),
                f == frame@,
                refs@ == middle + Set::new(
                    |r: u32| r != 0 && exists|j: int| 0 <= j < i && refers_to(#[trigger] f.stack[j], r),
                ),
            decreases m - i,
        {
            let v = frame.operand_stack.peek(m - 1 - i);
            let ghost previous = refs@;
            match v {
                Value::Reference(r) => {
                    if r.0 != 0 {
                        refs.insert(r.0);
                    }
                },
                _ => {},
            }
            proof {
                assert(refs@ =~= middle + Set::new(
                    |r: u32| r != 0 && exists|j: int| 0 <= j < i + 1 && refers_to(#[trigger] f.stack[j], r),
                )) by {
                    assert forall|r: u32| #![auto] refs@.contains(r) implies middle.contains(r) || (r != 0
                        && exists|j: int| 0 <= j < i + 1 && refers_to(#[trigger] f.stack[j], r)) by {
                        if !previous.contains(r) {
                            assert(refers_to(f.stack[i as int], r));
                        }
                    }
                    assert forall|r: u32| #![auto] (r != 0 && exists|j: int|
                        0 <= j < i + 1 && refers_to(#[trigger] f.stack[j], r)) implies refs@.contains(r) by {
                        let j = choose|j: int| 0 <= j < i + 1 && refers_to(#[trigger] f.stack[j], r);
                        if j < i {
                            assert(previous.contains(r));
                        }
                    }
                }
            }
            i += 1;
        }
        proof {
            assert(refs@ =~= Set::new(
                |r: u32|
                    r != 0 && ((reference == Some(Reference(r))) || exists|j: int|
                        0 <= j < k + 1 && frame_holds(#[trigger] frames[j], r)),
            )) by {
                assert forall|r: u32| #![auto] refs@.contains(r) implies r != 0 && ((reference == Some(Reference(r)))
                    || exists|j: int| 0 <= j < k + 1 && frame_holds(#[trigger] frames[j], r)) by {
                    if !before.contains(r) {
                        assert(frame_holds(frames[k as int], r));
                    }
                }
                assert forall|r: u32| #![auto] r != 0 && ((reference == Some(Reference(r))) || exists|j: int|
                    0 <= j < k + 1 && frame_holds(#[trigger] frames[j], r)) implies refs@.contains(r) by {
                    if reference != Some(Reference(r)) {
                        let j = choose|j: int| 0 <= j < k + 1 && frame_holds(#[trigger] frames[j], r);
                        if j < k {
                            assert(before.contains(r));
                        } else {
                            if exists|i: int| 0 <= i < f.locals.len() && refers_to(#[trigger] f.locals[i], r) {
                                assert(middle.contains(r));
                            }
                        }
                    }
                }
            }
        }
        k += 1;
    }
    refs
}

/// The memory the collector copies live objects into.
pub struct Data {
    raw: Vec<u8>,
    used: usize,
}

impl Data {
    /// `HEAP_SIZE` bytes of zeros, none of them used.
    pub fn new() -> (d: Self)
        ensures
            d.size() == HEAP_SIZE,
            d.used() == 0,
    {
        Data { raw: vec![0; HEAP_SIZE], used: 0 }
    }

    /// The number of bytes of memory.
    pub closed spec fn size(&self) -> nat {
        self.raw@.len()
    }

    /// The number of bytes handed out so far.
    pub closed spec fn used(&self) -> nat {
        self.used as nat
    }

    /// Hand out the next `size` bytes: returns the offset of the first, counted from the
    /// start of the memory; the original stops the program when the count of bytes handed out
    /// would overflow.
    pub fn allocate(&mut self, size: usize) -> (start: usize)
        requires
            old(self).used() + size <= usize::MAX,
        ensures
            start == old(self).used(),
            final(self).used() == old(self).used() + size,
            final(self).size() == old(self).size(),
    {
        let start = self.used;
        self.used = self.used + size;
        start
    }
}

// ---------------------------------------------------------------------------------------------
// Marking what is reachable.
// ---------------------------------------------------------------------------------------------

/// Whether the heap value `h` holds a reference to `r`: an element of an array of references,
/// or a field of an object.
pub open spec fn holds(h: HeapedModel, r: u32) -> bool {
    match h {
        HeapedModel::Array(a) => a.component == ArrayType::Reference && among(a.elements, r),
        HeapedModel::Object(o) => among(o.fields, r),
    }
}

/// Whether one of `values` is a reference to `r`.
pub open spec fn among(values: Seq<Value>, r: u32) -> bool {
    exists|i: int| 0 <= i < values.len() && refers_to(#[trigger] values[i], r)
}

/// Whether `path` starts at one of `roots` and goes on from each value in the heap `m` to one
/// it holds a reference to.
pub open spec fn is_path(m: Map<u32, HeapedModel>, roots: Set<u32>, path: Seq<u32>) -> bool {
    &&& path.len() > 0
    &&& roots.contains(path[0])
    &&& forall|i: int|
        0 <= i < path.len() - 1 ==> m.contains_key(#[trigger] path[i]) && holds(m[path[i]], path[i + 1])
}

/// The references reachable from `roots` in the heap `m`: the roots, and what the values
/// reachable hold references to.
pub open spec fn reachable(m: Map<u32, HeapedModel>, roots: Set<u32>) -> Set<u32> {
    Set::new(|r: u32| exists|path: Seq<u32>| #[trigger] is_path(m, roots, path) && path.last() == r)
}

/// Whether everything reachable from `roots` in the heap `m` is in the heap.
pub open spec fn closed(m: Map<u32, HeapedModel>, roots: Set<u32>) -> bool {
    forall|r: u32| #[trigger] reachable(m, roots).contains(r) ==> m.contains_key(r)
}

/// A root is reachable.
proof fn lemma_root_reachable(m: Map<u32, HeapedModel>, roots: Set<u32>, r: u32)
    requires
        roots.contains(r),
    ensures
        reachable(m, roots).contains(r),
{
    let path = seq![r];
    assert(is_path(m, roots, path));
}

/// What a reachable value holds a reference to is reachable.
proof fn lemma_step_reachable(m: Map<u32, HeapedModel>, roots: Set<u32>, r: u32, x: u32)
    requires
        reachable(m, roots).contains(r),
        m.contains_key(r),
        holds(m[r], x),
    ensures
        reachable(m, roots).contains(x),
{
    let path = choose|path: Seq<u32>| #[trigger] is_path(m, roots, path) && path.last() == r;
    let longer = path.push(x);
    assert forall|i: int| 0 <= i < longer.len() - 1 implies m.contains_key(#[trigger] longer[i]) && holds(
        m[longer[i]],
        longer[i + 1],
    ) by {
        if i < path.len() - 1 {
            assert(longer[i] == path[i] && longer[i + 1] == path[i + 1]);
        } else {
            assert(longer[i] == r && longer[i + 1] == x);
        }
    }
    assert(is_path(m, roots, longer));
}

/// A set that holds the roots and what each of its values in the heap holds a reference to
/// holds everything reachable.
proof fn lemma_closed_set_holds_reachable(m: Map<u32, HeapedModel>, roots: Set<u32>, s: Set<u32>)
    requires
        roots.subset_of(s),
        forall|r: u32, x: u32| s.contains(r) && m.contains_key(r) && #[trigger] holds(m[r], x) ==> s.contains(x),
    ensures
        reachable(m, roots).subset_of(s),
{
    assert forall|r: u32| reachable(m, roots).contains(r) implies s.contains(r) by {
        let path = choose|path: Seq<u32>| #[trigger] is_path(m, roots, path) && path.last() == r;
        lemma_path_within(m, roots, s, path, path.len() - 1);
    }
}

/// Every reference on a path, up to `k`, is in a set closed as above.
proof fn lemma_path_within(m: Map<u32, HeapedModel>, roots: Set<u32>, s: Set<u32>, path: Seq<u32>, k: int)
    requires
        roots.subset_of(s),
        forall|r: u32, x: u32| s.contains(r) && m.contains_key(r) && #[trigger] holds(m[r], x) ==> s.contains(x),
        is_path(m, roots, path),
        0 <= k < path.len(),
    ensures
        s.contains(path[k]),
    decreases k,
{
    if k > 0 {
        lemma_path_within(m, roots, s, path, k - 1);
        assert(m.contains_key(path[k - 1]) && holds(m[path[k - 1]], path[k - 1 + 1]));
    }
}

/// Push onto `work` every reference the heap value `h` holds.
fn push_held(h: &Heaped, work: &mut Vec<u32>)
    requires
        h@ matches HeapedModel::Array(a) ==> crate::heap::allocator::array_wf(a),
    ensures
        final(work)@.len() >= old(work)@.len(),
        final(work)@.subrange(0, old(work)@.len() as int) == old(work)@,
        forall|x: u32| holds(h@, x) ==> final(work)@.contains(x),
        forall|j: int| old(work)@.len() <= j < final(work)@.len() ==> holds(h@, #[trigger] final(work)@[j]),
{
    let ghost start = work@;
    match h {
        Heaped::Object(o) => {
            let n = o.field_count();
            let mut i: usize = 0;
            while i < n
                invariant
                    i <= n == o@.fields.len(),
                    h@ == HeapedModel::Object(o@),
                    work@.len() >= start.len(),
                    work@.subrange(0, start.len() as int) == start,
                    forall|k: int| 0 <= k < i ==> (#[trigger] o@.fields[k] matches Value::Reference(x) ==> work@.contains(x.0)),
                    forall|j: int| start.len() <= j < work@.len() ==> holds(h@, #[trigger] work@[j]),
                decreases n - i,
            {
                let ghost before = work@;
                match o.get_field(i) {
                    Value::Reference(x) => {
                        work.push(x.0);
                        proof {
                            assert(refers_to(o@.fields[i as int], x.0));
                            assert(h@ == HeapedModel::Object(o@));
                            assert(holds(h@, x.0));
                            assert forall|j: int| start.len() <= j < work@.len() implies holds(h@, #[trigger] work@[j]) by {
                                if j < before.len() {
                                    assert(work@[j] == before[j]);
                                }
                            }
                            assert(work@[work@.len() - 1] == x.0);
                            assert(work@.subrange(0, start.len() as int) =~= before.subrange(0, start.len() as int));
                            assert forall|k: int| 0 <= k < i implies (#[trigger] o@.fields[k] matches Value::Reference(y) ==> work@.contains(y.0)) by {
                                if let Value::Reference(y) = o@.fields[k] {
                                    assert(before.contains(y.0));
                                    let j = choose|j: int| 0 <= j < before.len() && before[j] == y.0;
                                    assert(work@[j] == y.0);
                                }
                            }
                        }
                    },
                    _ => {},
                }
                i += 1;
            }
            proof {
                assert forall|x: u32| holds(h@, x) implies work@.contains(x) by {
                    let k = choose|k: int| 0 <= k < o@.fields.len() && refers_to(#[trigger] o@.fields[k], x);
                    assert(o@.fields[k] matches Value::Reference(y) && y.0 == x);
                }
            }
        },
        Heaped::Array(a) => {
            if a.component() == ArrayType::Reference {
                let n = a.length();
                let mut i: i32 = 0;
                while i < n.0
                    invariant
                        0 <= i <= n.0,
                        n.0 == a@.elements.len(),
                        a@.component == ArrayType::Reference,
                        h@ == HeapedModel::Array(a@),
                        work@.len() >= start.len(),
                        work@.subrange(0, start.len() as int) == start,
                        forall|k: int| 0 <= k < i ==> (#[trigger] a@.elements[k] matches Value::Reference(x) ==> work@.contains(x.0)),
                        forall|j: int| start.len() <= j < work@.len() ==> holds(h@, #[trigger] work@[j]),
                    decreases n.0 - i,
                {
                    let ghost before = work@;
                    match a.get_element(Int(i)) {
                        Value::Reference(x) => {
                            work.push(x.0);
                            proof {
                                assert(refers_to(a@.elements[i as int], x.0));
                                assert(h@ == HeapedModel::Array(a@));
                                assert(holds(h@, x.0));
                                assert forall|j: int| start.len() <= j < work@.len() implies holds(h@, #[trigger] work@[j]) by {
                                    if j < before.len() {
                                        assert(work@[j] == before[j]);
                                    }
                                }
                                assert(work@[work@.len() - 1] == x.0);
                                assert(work@.subrange(0, start.len() as int) =~= before.subrange(0, start.len() as int));
                                assert forall|k: int| 0 <= k < i implies (#[trigger] a@.elements[k] matches Value::Reference(y) ==> work@.contains(y.0)) by {
                                    if let Value::Reference(y) = a@.elements[k] {
                                        assert(before.contains(y.0));
                                        let j = choose|j: int| 0 <= j < before.len() && before[j] == y.0;
                                        assert(work@[j] == y.0);
                                    }
                                }
                            }
                        },
                        _ => {},
                    }
                    i += 1;
                }
                proof {
                    assert forall|x: u32| holds(h@, x) implies work@.contains(x) by {
                        let k = choose|k: int| 0 <= k < a@.elements.len() && refers_to(#[trigger] a@.elements[k], x);
                        assert(a@.elements[k] matches Value::Reference(y) && y.0 == x);
                    }
                }
            }
        },
    }
}

/// The references reachable from `roots` in the heap: the roots, then, one value at a time,
/// the references each value reached holds.
#[verifier::rlimit(80)]
pub fn mark(heap: &Heap, roots: &HashSet<u32>) -> (visited: HashSet<u32>)
    requires
        closed(heap@, roots@),
        heap_wf(heap@),
    ensures
        visited@ == reachable(heap@, roots@),
{
    let ghost m = heap@;
    let ghost reach = reachable(m, roots@);
    proof {
        heap.lemma_finite();
    }
    let mut work: Vec<u32> = Vec::new();
    let ghost mut seen: Seq<u32> = Seq::empty();
    for r in it: roots.iter()
        invariant
            it.seq().unref().to_set() == roots@,
            seen == it.seq().take(it.index() as int).unref(),
            forall|j: int| 0 <= j < work@.len() ==> roots@.contains(#[trigger] work@[j]),
            forall|x: u32| #[trigger] seen.contains(x) ==> work@.contains(x),
            it.index() == it.seq().len() ==> seen.to_set() == roots@,
    {
        proof {
            assert(it.seq().unref()[it.index() as int] == *r);
            assert(it.seq().unref().to_set().contains(*r));
        }
        let ghost before = work@;
        work.push(*r);
        proof {
            let previous = seen;
            seen = seen.push(*r);
            assert forall|x: u32| #[trigger] seen.contains(x) implies work@.contains(x) by {
                if x == *r {
                    assert(work@[work@.len() - 1] == *r);
                } else {
                    assert(previous.contains(x));
                    let j = choose|j: int| 0 <= j < before.len() && before[j] == x;
                    assert(work@[j] == x);
                }
            }
        }
        assert(seen =~= it.seq().take(it.index() + 1).unref());
        assert(it.seq().take(it.seq().len() as int) =~= it.seq());
    }
    proof {
        assert forall|x: u32| roots@.contains(x) implies work@.contains(x) by {
            assert(seen.to_set().contains(x));
        }
        assert forall|j: int| 0 <= j < work@.len() implies reach.contains(#[trigger] work@[j]) by {
            lemma_root_reachable(m, roots@, work@[j]);
        }
    }
    let mut visited: HashSet<u32> = HashSet::new();
    while work.len() > 0
        invariant
            m == heap@,
            reach == reachable(m, roots@),
            closed(m, roots@),
            heap_wf(m),
            m.dom().finite(),
            forall|x: u32| #[trigger] visited@.contains(x) ==> reach.contains(x),
            forall|j: int| 0 <= j < work@.len() ==> reach.contains(#[trigger] work@[j]),
            forall|x: u32| #[trigger] roots@.contains(x) ==> visited@.contains(x) || work@.contains(x),
            forall|x: u32, y: u32|
                visited@.contains(x) && m.contains_key(x) && #[trigger] holds(m[x], y) ==> visited@.contains(y)
                    || work@.contains(y),
        decreases m.dom().difference(visited@).len(), work@.len(),
    {
        let ghost before_work = work@;
        let ghost before_visited = visited@;
        let r = work.pop().unwrap();
        proof {
            assert(before_work.last() == r);
            assert(work@ =~= before_work.drop_last());
            assert forall|y: u32| before_work.contains(y) && y != r implies work@.contains(y) by {
                let j = choose|j: int| 0 <= j < before_work.len() && before_work[j] == y;
                assert(j < before_work.len() - 1);
                assert(work@[j] == y);
            }
        }
        if !visited.contains(&r) {
            visited.insert(r);
            proof {
                assert(reach.contains(r));
                assert(m.contains_key(r));
            }
            let h = heap.get(Reference(r));
            let ghost mid_work = work@;
            push_held(h, &mut work);
            proof {
                assert forall|y: u32| mid_work.contains(y) implies work@.contains(y) by {
                    let j = choose|j: int| 0 <= j < mid_work.len() && mid_work[j] == y;
                    assert(work@.subrange(0, mid_work.len() as int)[j] == y);
                }
                assert forall|j: int| 0 <= j < work@.len() implies reach.contains(#[trigger] work@[j]) by {
                    if j < mid_work.len() {
                        assert(work@.subrange(0, mid_work.len() as int)[j] == work@[j]);
                    } else {
                        lemma_step_reachable(m, roots@, r, work@[j]);
                    }
                }
                assert(m.dom().difference(visited@) =~= m.dom().difference(before_visited).remove(r));
                assert(m.dom().finite());
                assert(m.dom().difference(before_visited).contains(r));
            }
        }
    }
    proof {
        lemma_closed_set_holds_reachable(m, roots@, visited@);
        assert(visited@ =~= reach);
    }
    visited
}

/// Every reference on a path from the roots is reachable.
proof fn lemma_path_prefix_reachable(m: Map<u32, HeapedModel>, roots: Set<u32>, path: Seq<u32>, k: int)
    requires
        is_path(m, roots, path),
        0 <= k < path.len(),
    ensures
        reachable(m, roots).contains(path[k]),
{
    let prefix = path.subrange(0, k + 1);
    assert forall|i: int| 0 <= i < prefix.len() - 1 implies m.contains_key(#[trigger] prefix[i]) && holds(
        m[prefix[i]],
        prefix[i + 1],
    ) by {
        assert(prefix[i] == path[i] && prefix[i + 1] == path[i + 1]);
    }
    assert(is_path(m, roots, prefix));
    assert(prefix.last() == path[k]);
}

/// Collecting the garbage a second time keeps everything: what was kept is exactly what is
/// reachable in the heap that is left, and nothing reachable is missing from it.
pub proof fn law_collect_idempotent(m: Map<u32, HeapedModel>, roots: Set<u32>)
    requires
        closed(m, roots),
    ensures
        ({
            let kept = m.restrict(reachable(m, roots));
            &&& reachable(kept, roots) == reachable(m, roots)
            &&& closed(kept, roots)
            &&& kept.restrict(reachable(kept, roots)) == kept
        }),
{
    let reach = reachable(m, roots);
    let kept = m.restrict(reach);
    assert forall|r: u32| reachable(kept, roots).contains(r) implies reach.contains(r) by {
        let path = choose|path: Seq<u32>| #[trigger] is_path(kept, roots, path) && path.last() == r;
        assert forall|i: int| 0 <= i < path.len() - 1 implies m.contains_key(#[trigger] path[i]) && holds(
            m[path[i]],
            path[i + 1],
        ) by {
            assert(kept.contains_key(path[i]) && holds(kept[path[i]], path[i + 1]));
        }
        assert(is_path(m, roots, path));
    }
    assert forall|r: u32| reach.contains(r) implies reachable(kept, roots).contains(r) by {
        let path = choose|path: Seq<u32>| #[trigger] is_path(m, roots, path) && path.last() == r;
        assert forall|i: int| 0 <= i < path.len() - 1 implies kept.contains_key(#[trigger] path[i]) && holds(
            kept[path[i]],
            path[i + 1],
        ) by {
            lemma_path_prefix_reachable(m, roots, path, i);
            assert(m.contains_key(path[i]) && holds(m[path[i]], path[i + 1]));
        }
        assert(is_path(kept, roots, path));
    }
    assert(reachable(kept, roots) =~= reach);
    assert(kept.restrict(reachable(kept, roots)) =~= kept);
}

} // verus!
