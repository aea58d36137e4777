//! An append-only log that keeps only its most recent entries, dropping
//! the oldest once it is full.

use std::collections::VecDeque;
use vstd::prelude::*;

verus! {

broadcast use vstd::std_specs::vecdeque::group_vec_dequeue_axioms;

/// The log after appending `x` to `s` under capacity `cap`: when the log
/// already holds `cap` or more entries, its oldest entry is dropped first.
pub open spec fn bounded_push<T>(s: Seq<T>, cap: nat, x: T) -> Seq<T> {
    if s.len() >= cap && s.len() > 0 {
        s.drop_first().push(x)
    } else {
        s.push(x)
    }
}

/// The last `cap` entries of `s`, or all of `s` if it is shorter.
pub open spec fn keep_last<T>(s: Seq<T>, cap: nat) -> Seq<T> {
    if s.len() <= cap {
        s
    } else {
        s.subrange(s.len() - cap, s.len() as int)
    }
}

/// A log of at most `capacity` entries, oldest first.
pub struct BoundedLog<T> {
    items: VecDeque<T>,
    capacity: usize,
}

impl<T> View for BoundedLog<T> {
    type V = Seq<T>;

    closed spec fn view(&self) -> Seq<T> {
        self.items@
    }
}

impl<T> BoundedLog<T> {
    /// The most entries the log keeps.
    pub closed spec fn cap(&self) -> nat {
        self.capacity as nat
    }

    /// An empty log that keeps at most `capacity` entries.
    pub fn new(capacity: usize) -> (log: Self)
        ensures
            log@ == Seq::<T>::empty(),
            log.cap() == capacity,
    {
        BoundedLog { items: VecDeque::new(), capacity }
    }

    /// The most entries the log keeps.
    pub fn capacity(&self) -> (n: usize)
        ensures
            n == self.cap(),
    {
        self.capacity
    }

    /// The number of entries held.
    pub fn len(&self) -> (n: usize)
        ensures
            n == self@.len(),
    {
        self.items.len()
    }

    /// Whether the log holds no entry.
    pub fn is_empty(&self) -> (b: bool)
        ensures
            b == (self@.len() == 0),
    {
        self.items.len() == 0
    }

    /// The entry at position `i`, counting from the oldest.
    pub fn get(&self, i: usize) -> (r: &T)
        requires
            i < self@.len(),
        ensures
            *r == self@[i as int],
    {
        &self.items[i]
    }

    /// Appends `x`, first dropping the oldest entry when the log is full.
    pub fn push(&mut self, x: T)
        ensures
            final(self)@ == bounded_push(old(self)@, old(self).cap(), x),
            final(self).cap() == old(self).cap(),
    {
        if self.items.len() >= self.capacity {
            self.items.pop_front();
        }
        self.items.push_back(x);
    }

    /// Removes and returns the oldest entry.
    pub fn pop_oldest(&mut self) -> (r: Option<T>)
        ensures
            final(self).cap() == old(self).cap(),
            old(self)@.len() == 0 ==> r is None && final(self)@ == old(self)@,
            old(self)@.len() > 0 ==> r == Some(old(self)@[0]) && final(self)@ == old(self)@.drop_first(),
    {
        self.items.pop_front()
    }

    /// Removes every entry.
    pub fn clear(&mut self)
        ensures
            final(self)@ == Seq::<T>::empty(),
            final(self).cap() == old(self).cap(),
    {
        self.items.clear();
    }
}

/// A log never holds more entries than its capacity once an entry has
/// been added, provided it held no more before.
pub proof fn lemma_push_respects_capacity<T>(s: Seq<T>, cap: nat, x: T)
    requires
        cap > 0,
        s.len() <= cap,
    ensures
        bounded_push(s, cap, x).len() <= cap,
        bounded_push(s, cap, x).last() == x,
{
}

/// A log holds the last `cap` entries of everything appended to it: if it
/// holds the last `cap` entries of `history`, then after appending `x` it
/// holds the last `cap` entries of `history` followed by `x`.
pub proof fn lemma_push_keeps_most_recent<T>(history: Seq<T>, cap: nat, x: T)
    requires
        cap > 0,
    ensures
        bounded_push(keep_last(history, cap), cap, x) == keep_last(history.push(x), cap),
{
    let s = keep_last(history, cap);
    let h2 = history.push(x);
    if history.len() < cap {
        assert(bounded_push(s, cap, x) =~= h2);
    } else {
        assert(s.len() == cap);
        assert(bounded_push(s, cap, x) =~= h2.subrange(h2.len() - cap, h2.len() as int));
    }
}

} // verus!
