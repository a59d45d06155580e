//! Sets of item ids, kept as strictly increasing vectors so that membership
//! and set difference have exact, order-independent contracts.

use vstd::prelude::*;

verus! {

/// A set of item ids with unique membership.
pub struct IdSet {
    ids: Vec<u128>,
}

impl View for IdSet {
    type V = Seq<u128>;

    closed spec fn view(&self) -> Seq<u128> {
        self.ids@
    }
}

pub open spec fn strictly_sorted(s: Seq<u128>) -> bool {
    forall|i: int, j: int| 0 <= i < j < s.len() ==> s[i] < s[j]
}

/// An id sequence with no members is empty: when a difference (such as the
/// missing set on a re-run over an unchanged store) contains nothing, its
/// length is zero and no work is queued.
pub proof fn lemma_empty_when_no_member(s: Seq<u128>)
    requires
        forall|x: u128| !s.contains(x),
    ensures
        s.len() == 0,
{
    if s.len() > 0 {
        assert(s.contains(s[0]));
    }
}

impl IdSet {
    /// The representation invariant: ids are strictly increasing, so each id
    /// appears exactly once.
    pub open spec fn wf(&self) -> bool {
        strictly_sorted(self@)
    }

    pub open spec fn as_set(&self) -> Set<u128> {
        self@.to_set()
    }

    pub fn new() -> (s: IdSet)
        ensures
            s.wf(),
            s@ == Seq::<u128>::empty(),
    {
        IdSet { ids: Vec::new() }
    }

    pub fn len(&self) -> (n: usize)
        ensures
            n == self@.len(),
    {
        self.ids.len()
    }

    pub fn get(&self, k: usize) -> (v: u128)
        requires
            k < self@.len(),
        ensures
            v == self@[k as int],
    {
        self.ids[k]
    }

    pub fn contains(&self, id: u128) -> (b: bool)
        ensures
            b == self@.contains(id),
    {
        let mut k: usize = 0;
        while k < self.ids.len()
            invariant
                k <= self@.len(),
                forall|m: int| 0 <= m < k ==> self@[m] != id,
            decreases self@.len() - k,
        {
            if self.ids[k] == id {
                return true;
            }
            k = k + 1;
        }
        false
    }

    /// Add an id, keeping the vector strictly sorted.
    pub fn insert(&mut self, id: u128)
        requires
            old(self).wf(),
            old(self)@.len() < usize::MAX,
        ensures
            final(self).wf(),
            forall|x: u128| final(self)@.contains(x) <==> (old(self)@.contains(x) || x == id),
            final(self)@.len() <= old(self)@.len() + 1,
    {
        let mut k: usize = 0;
        while k < self.ids.len() && self.ids[k] < id
            invariant
                k <= self@.len(),
                forall|m: int| 0 <= m < k ==> self@[m] < id,
            decreases self@.len() - k,
        {
            k = k + 1;
        }
        if k < self.ids.len() && self.ids[k] == id {
            return;
        }
        let ghost pre = self@;
        self.ids.insert(k, id);
        proof {
            assert(forall|m: int| 0 <= m < k ==> final(self)@[m] == pre[m]);
            assert(final(self)@[k as int] == id);
            assert(forall|m: int| k < m < final(self)@.len() ==> final(self)@[m] == pre[m - 1]);
            assert(final(self).wf()) by {
                assert(k < pre.len() ==> pre[k as int] > id);
                assert(forall|i: int, j: int|
                    0 <= i < j < final(self)@.len() ==> final(self)@[i] < final(self)@[j]);
            }
            assert(forall|x: u128| pre.contains(x) ==> final(self)@.contains(x)) by {
                assert(forall|m: int| 0 <= m < pre.len()
                    ==> final(self)@[if m < k { m } else { m + 1 }] == pre[m]);
            }
        }
    }

    /// Every id of `self` that is not in `other`, in increasing order.
    pub fn difference(&self, other: &IdSet) -> (d: IdSet)
        requires
            self.wf(),
        ensures
            d.wf(),
            forall|x: u128| d@.contains(x) <==> (self@.contains(x) && !other@.contains(x)),
            d@.len() <= self@.len(),
    {
        let mut out: Vec<u128> = Vec::new();
        let mut k: usize = 0;
        while k < self.ids.len()
            invariant
                self.wf(),
                k <= self@.len(),
                strictly_sorted(out@),
                out@.len() <= k,
                forall|x: u128| out@.contains(x)
                    <==> (self@.take(k as int).contains(x) && !other@.contains(x)),
            decreases self@.len() - k,
        {
            let v = self.ids[k];
            let ghost pre = out@;
            if !other.contains(v) {
                out.push(v);
                proof {
                    assert forall|m: int| 0 <= m < pre.len() implies pre[m] < v by {
                        assert(pre.contains(pre[m]));
                        assert(self@.take(k as int).contains(pre[m]));
                        let j = choose|j: int|
                            0 <= j < self@.take(k as int).len()
                                && self@.take(k as int)[j] == pre[m];
                        assert(self@.take(k as int)[j] == self@[j]);
                        assert(self@[j] < self@[k as int]);
                    }
                    assert(strictly_sorted(out@));
                    assert forall|x: u128| #[trigger] out@.contains(x)
                        <==> (pre.contains(x) || x == v) by {
                        vstd::seq_lib::lemma_seq_contains_after_push(pre, v, x);
                    }
                }
            }
            proof {
                assert(forall|x: u128| self@.take(k + 1).contains(x)
                    <==> (self@.take(k as int).contains(x) || x == self@[k as int])) by {
                    assert(self@.take(k + 1) =~= self@.take(k as int).push(self@[k as int]));
                    assert(forall|x: u128| #[trigger] self@.take(k as int).contains(x)
                        ==> self@.take(k + 1).contains(x));
                    assert(self@.take(k + 1).last() == self@[k as int]);
                    assert(forall|x: u128| #[trigger] self@.take(k + 1).contains(x)
                        ==> (self@.take(k as int).contains(x) || x == self@[k as int])) by {
                        assert(forall|m: int| 0 <= m < k
                            ==> self@.take(k + 1)[m] == self@.take(k as int)[m]);
                    }
                }
            }
            k = k + 1;
        }
        proof {
            assert(self@.take(self@.len() as int) =~= self@);
        }
        IdSet { ids: out }
    }
}

} // verus!
