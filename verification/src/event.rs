//! A subscription registry: callbacks registered under numeric ids and
//! run on every emitted value.

use vstd::prelude::*;

verus! {

/// A piece of caller-supplied logic that can be run on a value.
pub trait Callback<T> {
    /// Runs the callback on one value.
    fn call(&self, data: T);
}

/// A set of callbacks, each registered under the value the id counter
/// had when it was subscribed; emitting runs every callback once, in
/// subscription order.
pub struct Event<T, F> {
    callbacks: Vec<(usize, F)>,
    next_id: usize,
    _data: core::marker::PhantomData<T>,
}

impl<T: Clone, F: Callback<T>> Event<T, F> {
    /// The registered callbacks with their ids, in subscription order.
    pub closed spec fn entries(&self) -> Seq<(usize, F)> {
        self.callbacks@
    }

    /// The id the next subscription will be stored under.
    pub closed spec fn next(&self) -> int {
        self.next_id as int
    }

    /// Every registered id came from the counter, so ids are distinct
    /// and below the counter.
    pub closed spec fn wf(&self) -> bool {
        &&& forall|k: int|
            0 <= k < self.entries().len() ==> (#[trigger] self.entries()[k]).0 < self.next()
        &&& forall|k1: int, k2: int|
            #![trigger self.entries()[k1], self.entries()[k2]]
            0 <= k1 < self.entries().len() && 0 <= k2 < self.entries().len() && k1 != k2
                ==> self.entries()[k1].0 != self.entries()[k2].0
    }

    /// Every registered id sits below the counter. So unsubscribing
    /// with a value the counter has already reached — the value
    /// `subscribe` returns, say — matches no entry and removes nothing.
    pub proof fn lemma_ids_below_next(&self)
        requires
            self.wf(),
        ensures
            forall|k: int|
                0 <= k < self.entries().len() ==> (#[trigger] self.entries()[k]).0 < self.next(),
    {
    }

    /// An empty registry.
    pub fn new() -> (e: Self)
        ensures
            e.wf(),
            e.entries() == Seq::<(usize, F)>::empty(),
            e.next() == 0,
    {
        Event { callbacks: Vec::new(), next_id: 0, _data: core::marker::PhantomData }
    }

    /// Registers a callback under the current counter value and moves
    /// the counter on. Returns the moved-on counter: the callback is
    /// stored under the returned value minus one.
    pub fn subscribe(&mut self, callback: F) -> (id: usize)
        requires
            old(self).wf(),
            old(self).next() < usize::MAX,
        ensures
            final(self).wf(),
            final(self).entries() == old(self).entries().push(
                ((old(self).next() as usize), callback),
            ),
            final(self).next() == old(self).next() + 1,
            id == old(self).next() + 1,
    {
        self.callbacks.push((self.next_id, callback));
        self.next_id = self.next_id + 1;
        proof {
            assert forall|k: int|
                0 <= k < self.entries().len() implies (#[trigger] self.entries()[k]).0
                < self.next() by {
                if k < old(self).entries().len() {
                    assert(self.entries()[k] == old(self).entries()[k]);
                }
            }
            assert forall|k1: int, k2: int|
                #![trigger self.entries()[k1], self.entries()[k2]]
                0 <= k1 < self.entries().len() && 0 <= k2 < self.entries().len() && k1
                    != k2 implies self.entries()[k1].0 != self.entries()[k2].0 by {
                if k1 < old(self).entries().len() && k2 < old(self).entries().len() {
                    assert(old(self).entries()[k1].0 != old(self).entries()[k2].0);
                } else if k1 < old(self).entries().len() {
                    assert(old(self).entries()[k1].0 < old(self).next());
                } else if k2 < old(self).entries().len() {
                    assert(old(self).entries()[k2].0 < old(self).next());
                }
            }
        }
        self.next_id
    }

    /// Removes the callback registered under `id`, if there is one;
    /// every other callback stays, in order.
    pub fn unsubscribe(&mut self, id: usize)
        requires
            old(self).wf(),
        ensures
            final(self).wf(),
            final(self).next() == old(self).next(),
            (forall|k: int|
                0 <= k < old(self).entries().len() ==> (#[trigger] old(self).entries()[k]).0 != id)
                ==> final(self).entries() == old(self).entries(),
            forall|k: int|
                0 <= k < old(self).entries().len() && (#[trigger] old(self).entries()[k]).0 == id
                    ==> final(self).entries() == old(self).entries().remove(k),
    {
        let n: usize = self.callbacks.len();
        let mut k: usize = 0;
        while k < n
            invariant
                k <= n,
                n == self.callbacks@.len(),
                old(self).wf(),
                *self == *old(self),
                forall|m: int| 0 <= m < k ==> (#[trigger] self.callbacks@[m]).0 != id,
            decreases n - k,
        {
            if self.callbacks[k].0 == id {
                self.callbacks.remove(k);
                proof {
                    assert forall|m: int|
                        0 <= m < old(self).entries().len()
                            && (#[trigger] old(self).entries()[m]).0 == id
                            implies self.entries() == old(self).entries().remove(m) by {
                        if m != k as int {
                            assert(old(self).entries()[m].0 != old(self).entries()[k as int].0);
                        }
                    }
                    assert forall|m: int|
                        0 <= m < self.entries().len() implies (#[trigger] self.entries()[m]).0
                        < self.next() by {
                        if m < k as int {
                            assert(self.entries()[m] == old(self).entries()[m]);
                        } else {
                            assert(self.entries()[m] == old(self).entries()[m + 1]);
                        }
                    }
                    assert forall|m1: int, m2: int|
                        #![trigger self.entries()[m1], self.entries()[m2]]
                        0 <= m1 < self.entries().len() && 0 <= m2 < self.entries().len() && m1
                            != m2 implies self.entries()[m1].0 != self.entries()[m2].0 by {
                        let o1: int = if m1 < k as int { m1 } else { m1 + 1 };
                        let o2: int = if m2 < k as int { m2 } else { m2 + 1 };
                        assert(self.entries()[m1] == old(self).entries()[o1]);
                        assert(self.entries()[m2] == old(self).entries()[o2]);
                        assert(old(self).entries()[o1].0 != old(self).entries()[o2].0);
                    }
                }
                return ;
            }
            k = k + 1;
        }
    }

    /// Runs every registered callback once, in subscription order, each
    /// on its own clone of `data`.
    pub fn emit(&self, data: T) {
        let n: usize = self.callbacks.len();
        let mut k: usize = 0;
        while k < n
            invariant
                k <= n,
                n == self.callbacks@.len(),
            decreases n - k,
        {
            self.callbacks[k].1.call(data.clone());
            k = k + 1;
        }
    }
}

} // verus!
