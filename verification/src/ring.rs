//! A bounded history: the newest items, oldest first.

use std::collections::VecDeque;
use vstd::prelude::*;

verus! {

/// The last `n` items of `s`, or all of `s` where it has no more than `n`.
pub open spec fn newest<T>(s: Seq<T>, n: nat) -> Seq<T> {
    if s.len() <= n {
        s
    } else {
        s.skip(s.len() - n)
    }
}

/// What a history of capacity `capacity` holds after the items of `arrivals`
/// were pushed onto `start`, one by one in their order.
pub open spec fn pushed_all<T>(start: Seq<T>, arrivals: Seq<T>, capacity: nat) -> Seq<T>
    decreases arrivals.len(),
{
    if arrivals.len() == 0 {
        start
    } else {
        pushed_all(newest(start.push(arrivals[0]), capacity), arrivals.skip(1), capacity)
    }
}

/// A sequence that holds at most `capacity` items. A push onto a full ring
/// drops the oldest item first.
pub struct Ring<T> {
    items: VecDeque<T>,
    capacity: usize,
}

impl<T> View for Ring<T> {
    type V = Seq<T>;

    /// The items held, oldest first.
    closed spec fn view(&self) -> Seq<T> {
        self.items@
    }
}

impl<T> Ring<T> {
    /// The ring holds no more than its capacity.
    pub closed spec fn wf(&self) -> bool {
        self.items@.len() <= self.capacity
    }

    /// The most items the ring holds.
    pub closed spec fn limit(&self) -> nat {
        self.capacity as nat
    }

    /// Every well-formed ring is within its limit.
    pub proof fn lemma_bounded(&self)
        requires
            self.wf(),
        ensures
            self@.len() <= self.limit(),
    {
    }

    /// An empty ring for at most `capacity` items.
    pub fn new(capacity: usize) -> (ring: Self)
        ensures
            ring.wf(),
            ring@ == Seq::<T>::empty(),
            ring.limit() == capacity,
    {
        Ring { items: VecDeque::new(), capacity }
    }

    pub fn capacity(&self) -> (capacity: usize)
        ensures
            capacity == self.limit(),
    {
        self.capacity
    }

    pub fn len(&self) -> (len: usize)
        ensures
            len == self@.len(),
    {
        self.items.len()
    }

    pub fn is_empty(&self) -> (empty: bool)
        ensures
            empty == (self@.len() == 0),
    {
        self.items.len() == 0
    }

    /// The item at `index`, counted from the oldest.
    pub fn get(&self, index: usize) -> (item: Option<&T>)
        ensures
            index < self@.len() ==> item == Some(&self@[index as int]),
            index >= self@.len() ==> item is None,
    {
        if index < self.items.len() {
            Some(&self.items[index])
        } else {
            None
        }
    }

    /// Adds `item` as the newest. A full ring gives up its oldest item for
    /// it; a ring of capacity 0 stays empty.
    pub fn push(&mut self, item: T)
        requires
            old(self).wf(),
        ensures
            final(self).wf(),
            final(self).limit() == old(self).limit(),
            final(self)@ == newest(old(self)@.push(item), old(self).limit()),
    {
        if self.capacity == 0 {
            assert(self@ =~= newest(old(self)@.push(item), 0));
            return ;
        }
        if self.items.len() == self.capacity {
            let _ = self.items.pop_front();
        }
        self.items.push_back(item);
        assert(self@ =~= newest(old(self)@.push(item), old(self).limit()));
    }

    /// Pushes the items of `arrivals` in their order.
    pub fn extend(&mut self, arrivals: Vec<T>)
        requires
            old(self).wf(),
        ensures
            final(self).wf(),
            final(self).limit() == old(self).limit(),
            final(self)@ == newest(old(self)@ + arrivals@, old(self).limit()),
    {
        let ghost all = arrivals@;
        let ghost start = self@;
        let ghost capacity = self.limit();
        for item in it: arrivals
            invariant
                self.wf(),
                self.limit() == capacity,
                it.seq() == all,
                self@ == newest(start + all.take(it.index() as int), capacity),
        {
            proof {
                lemma_newest_push(start + all.take(it.index() as int), item, capacity);
                assert((start + all.take(it.index() as int)).push(item) =~= start + all.take(
                    it.index() + 1,
                ));
            }
            self.push(item);
        }
        assert(all.take(all.len() as int) =~= all);
    }
}

/// Dropping old items before a push or after it comes to the same.
pub proof fn lemma_newest_push<T>(s: Seq<T>, item: T, capacity: nat)
    ensures
        newest(newest(s, capacity).push(item), capacity) == newest(s.push(item), capacity),
{
    assert(newest(newest(s, capacity).push(item), capacity) =~= newest(s.push(item), capacity));
}

/// Pushing arrivals one by one leaves the newest of everything, in arrival
/// order.
pub proof fn lemma_pushed_all<T>(start: Seq<T>, arrivals: Seq<T>, capacity: nat)
    requires
        start.len() <= capacity,
    ensures
        pushed_all(start, arrivals, capacity) == newest(start + arrivals, capacity),
        pushed_all(start, arrivals, capacity).len() <= capacity,
    decreases arrivals.len(),
{
    if arrivals.len() == 0 {
        assert(start + arrivals =~= start);
    } else {
        let next = newest(start.push(arrivals[0]), capacity);
        lemma_pushed_all(next, arrivals.skip(1), capacity);
        assert(newest(next + arrivals.skip(1), capacity) =~= newest(start + arrivals, capacity));
    }
}

/// A ring that took in more items than it holds is exactly full, and holds
/// the last of them in the order in which they came.
pub proof fn lemma_overfull_ring_keeps_newest<T>(arrivals: Seq<T>, capacity: nat)
    requires
        arrivals.len() > capacity,
    ensures
        pushed_all(Seq::<T>::empty(), arrivals, capacity).len() == capacity,
        pushed_all(Seq::<T>::empty(), arrivals, capacity) == arrivals.skip(
            arrivals.len() - capacity,
        ),
{
    lemma_pushed_all(Seq::<T>::empty(), arrivals, capacity);
    assert(Seq::<T>::empty() + arrivals =~= arrivals);
}

} // verus!
