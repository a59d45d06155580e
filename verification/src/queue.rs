//! The pop-once task queue: a bounded multi-producer/multi-consumer queue of
//! pending item ids, pre-sized to the missing set. Pops are atomic, so over
//! the whole run each queued id is handed to exactly one worker.

use vstd::prelude::*;
use vstd::multiset::Multiset;
use crate::idset::IdSet;

verus! {

#[verifier::external_type_specification]
#[verifier::external_body]
#[verifier::reject_recursive_types(T)]
pub struct ExArrayQueue<T>(crossbeam_queue::ArrayQueue<T>);

/// The ids an `ArrayQueue` holds, front (next to pop) first.
pub uninterp spec fn queue_contents(q: crossbeam_queue::ArrayQueue<u128>) -> Seq<u128>;

/// The fixed capacity the queue was created with.
pub uninterp spec fn queue_capacity(q: crossbeam_queue::ArrayQueue<u128>) -> nat;

/// Relies on `crossbeam_queue::ArrayQueue::new`: an empty queue of capacity
/// `cap`. `new` panics on capacity zero and on capacities so large that
/// `cap + 1` exceeds the largest power of two, so those are required away.
#[verifier::external_body]
fn queue_new(cap: usize) -> (q: crossbeam_queue::ArrayQueue<u128>)
    requires
        1 <= cap <= usize::MAX / 2,
    ensures
        queue_contents(q) == Seq::<u128>::empty(),
        queue_capacity(q) == cap,
{
    crossbeam_queue::ArrayQueue::new(cap)
}

/// Relies on `crossbeam_queue::ArrayQueue::push_mut`: appends the value at
/// the tail, or returns it back exactly when the queue is full.
#[verifier::external_body]
fn queue_push(q: &mut crossbeam_queue::ArrayQueue<u128>, v: u128) -> (r: Result<(), u128>)
    ensures
        queue_capacity(*final(q)) == queue_capacity(*old(q)),
        queue_contents(*old(q)).len() < queue_capacity(*old(q))
            ==> r is Ok && queue_contents(*final(q)) == queue_contents(*old(q)).push(v),
        queue_contents(*old(q)).len() >= queue_capacity(*old(q))
            ==> r is Err && r->Err_0 == v && queue_contents(*final(q)) == queue_contents(*old(q)),
{
    q.push_mut(v)
}

/// Relies on `crossbeam_queue::ArrayQueue::pop_mut`: removes and returns the
/// id at the head, or `None` exactly when the queue is empty.
#[verifier::external_body]
fn queue_pop(q: &mut crossbeam_queue::ArrayQueue<u128>) -> (r: Option<u128>)
    ensures
        queue_capacity(*final(q)) == queue_capacity(*old(q)),
        queue_contents(*old(q)).len() == 0
            ==> r is None && queue_contents(*final(q)) == queue_contents(*old(q)),
        queue_contents(*old(q)).len() > 0
            ==> r == Some(queue_contents(*old(q)).first())
                && queue_contents(*final(q)) == queue_contents(*old(q)).drop_first(),
{
    q.pop_mut()
}

/// Relies on `crossbeam_queue::ArrayQueue::len`.
#[verifier::external_body]
fn queue_len(q: &crossbeam_queue::ArrayQueue<u128>) -> (n: usize)
    ensures
        n == queue_contents(*q).len(),
{
    q.len()
}

/// The concurrent queue of items still to capture.
pub struct TaskQueue {
    q: crossbeam_queue::ArrayQueue<u128>,
}

impl View for TaskQueue {
    type V = Seq<u128>;

    closed spec fn view(&self) -> Seq<u128> {
        queue_contents(self.q)
    }
}

impl TaskQueue {
    pub closed spec fn capacity(&self) -> nat {
        queue_capacity(self.q)
    }

    /// A queue holding exactly the missing ids, sized to their number.
    pub fn from_missing(missing: &IdSet) -> (t: TaskQueue)
        requires
            1 <= missing@.len() <= usize::MAX / 2,
        ensures
            t@ == missing@,
            t.capacity() == missing@.len(),
    {
        let n = missing.len();
        let mut q = queue_new(n);
        let mut i: usize = 0;
        proof {
            assert(missing@.take(0) =~= Seq::<u128>::empty());
        }
        while i < n
            invariant
                n == missing@.len(),
                i <= n,
                queue_capacity(q) == n,
                queue_contents(q) == missing@.take(i as int),
            decreases n - i,
        {
            let v = missing.get(i);
            let r = queue_push(&mut q, v);
            proof {
                assert(r is Ok);
                assert(missing@.take(i + 1) =~= missing@.take(i as int).push(missing@[i as int]));
            }
            i = i + 1;
        }
        proof {
            assert(missing@.take(n as int) =~= missing@);
        }
        TaskQueue { q }
    }

    /// One atomic pop: the head id leaves the queue, never to be handed out
    /// again; `None` exactly when no work is left.
    pub fn pop(&mut self) -> (r: Option<u128>)
        ensures
            final(self).capacity() == old(self).capacity(),
            old(self)@.len() == 0 ==> r is None && final(self)@ == old(self)@,
            old(self)@.len() > 0 ==> r == Some(old(self)@.first()) && final(self)@ == old(
                self,
            )@.drop_first(),
    {
        queue_pop(&mut self.q)
    }

    pub fn len(&self) -> (n: usize)
        ensures
            n == self@.len(),
    {
        queue_len(&self.q)
    }

    /// Give the raw queue up, for sharing among worker threads; the contents
    /// are unchanged.
    pub fn into_inner(self) -> (q: crossbeam_queue::ArrayQueue<u128>)
        ensures
            queue_contents(q) == self@,
            queue_capacity(q) == self.capacity(),
    {
        self.q
    }

    /// Pop until empty: every queued id comes out, in queue order.
    pub fn drain(&mut self) -> (out: Vec<u128>)
        ensures
            out@ == old(self)@,
            final(self)@.len() == 0,
    {
        let mut out: Vec<u128> = Vec::new();
        loop
            invariant
                out@ + self@ == old(self)@,
            decreases self@.len(),
        {
            let ghost pre = self@;
            match self.pop() {
                Some(v) => {
                    out.push(v);
                    proof {
                        assert(out@ + self@ =~= old(self)@) by {
                            assert(pre =~= seq![v] + pre.drop_first());
                        }
                    }
                },
                None => {
                    proof {
                        assert(out@ + self@ =~= out@);
                    }
                    return out;
                },
            }
        }
    }
}

/// The ids still queued after `k` pops have been linearized, whichever
/// workers made them.
pub open spec fn remaining_after(q: Seq<u128>, k: nat) -> Seq<u128>
    decreases k,
{
    if k == 0 {
        q
    } else {
        let r = remaining_after(q, (k - 1) as nat);
        if r.len() == 0 {
            r
        } else {
            r.drop_first()
        }
    }
}

/// The ids the workers among them have taken after `k` pops.
pub open spec fn taken_after(q: Seq<u128>, k: nat) -> Multiset<u128>
    decreases k,
{
    if k == 0 {
        Multiset::empty()
    } else {
        let r = remaining_after(q, (k - 1) as nat);
        let t = taken_after(q, (k - 1) as nat);
        if r.len() == 0 {
            t
        } else {
            t.insert(r.first())
        }
    }
}

/// Pop conservation: after any number of pops, the ids taken plus the ids
/// remaining are exactly the ids that were queued.
pub proof fn lemma_pop_conservation(q: Seq<u128>, k: nat)
    ensures
        taken_after(q, k).add(remaining_after(q, k).to_multiset()) == q.to_multiset(),
    decreases k,
{
    broadcast use vstd::seq_lib::group_to_multiset_ensures;
    broadcast use vstd::multiset::group_multiset_axioms;

    if k == 0 {
        assert(taken_after(q, 0).add(remaining_after(q, 0).to_multiset()) =~= q.to_multiset());
    } else {
        lemma_pop_conservation(q, (k - 1) as nat);
        let r = remaining_after(q, (k - 1) as nat);
        let t = taken_after(q, (k - 1) as nat);
        if r.len() > 0 {
            assert(r.remove(0) =~= r.drop_first());
            assert(r.drop_first().to_multiset() =~= r.to_multiset().remove(r[0]));
            assert(r.contains(r[0]));
            assert(r.to_multiset().count(r[0]) > 0);
            assert(t.insert(r[0]).add(r.to_multiset().remove(r[0])) =~= t.add(r.to_multiset()));
        }
    }
}

/// Exactly-once dequeue: once the queue is empty, the union of the ids the
/// workers popped is exactly the queued multiset — and when the queue was
/// filled from a set (no duplicate ids), each id was handed out exactly once.
pub proof fn lemma_exactly_once(q: Seq<u128>, k: nat)
    requires
        remaining_after(q, k).len() == 0,
    ensures
        taken_after(q, k) == q.to_multiset(),
        q.no_duplicates() ==> forall|x: u128|
            taken_after(q, k).count(x) == (if q.contains(x) {
                1int
            } else {
                0int
            }),
{
    broadcast use vstd::seq_lib::group_to_multiset_ensures;
    broadcast use vstd::multiset::group_multiset_axioms;

    lemma_pop_conservation(q, k);
    assert(remaining_after(q, k).to_multiset().len() == 0);
    assert(taken_after(q, k).add(remaining_after(q, k).to_multiset()) =~= taken_after(q, k));
    if q.no_duplicates() {
        q.lemma_multiset_has_no_duplicates();
        assert forall|x: u128|
            taken_after(q, k).count(x) == (if q.contains(x) {
                1int
            } else {
                0int
            }) by {
            if q.contains(x) {
                assert(q.to_multiset().contains(x));
            } else {
                assert(q.to_multiset().count(x) == 0);
            }
        }
    }
}

/// A strictly increasing fill (as `TaskQueue::from_missing` makes) has no
/// duplicate ids.
pub proof fn lemma_sorted_fill_unique(q: Seq<u128>)
    requires
        crate::idset::strictly_sorted(q),
    ensures
        q.no_duplicates(),
{
}

} // verus!
