//! A fixed-capacity ring buffer for time-series samples.
use vstd::prelude::*;
use std::collections::VecDeque;
use std::collections::vec_deque::Iter;
use vstd::std_specs::iter::IteratorSpec;

verus! {

/// Keeps the most recent `capacity` items, oldest first.
#[derive(Debug)]
pub struct RingBuffer<T> {
    data: VecDeque<T>,
    capacity: usize,
}

/// The contents after pushing `item` into a buffer holding `s` with room
/// for `cap` items: the oldest item leaves when the buffer is full.
pub open spec fn ring_push<T>(s: Seq<T>, cap: nat, item: T) -> Seq<T> {
    if s.len() >= cap {
        s.drop_first().push(item)
    } else {
        s.push(item)
    }
}

/// The contents after pushing each of `items`, in order, into a buffer that
/// held `s`.
pub open spec fn ring_push_all<T>(s: Seq<T>, cap: nat, items: Seq<T>) -> Seq<T>
    decreases items.len(),
{
    if items.len() == 0 {
        s
    } else {
        ring_push(ring_push_all(s, cap, items.drop_last()), cap, items.last())
    }
}

impl<T> View for RingBuffer<T> {
    type V = Seq<T>;

    closed spec fn view(&self) -> Seq<T> {
        self.data@
    }
}

impl<T> RingBuffer<T> {
    #[verifier::type_invariant]
    spec fn inv(self) -> bool {
        &&& 1 <= self.capacity
        &&& self.data@.len() <= self.capacity
    }

    /// Maximum number of items held.
    pub closed spec fn capacity(&self) -> nat {
        self.capacity as nat
    }
}

impl<T: Clone> RingBuffer<T> {
    /// Creates an empty ring buffer; a capacity of zero is raised to one.
    pub fn new(capacity: usize) -> (r: Self)
        ensures
            r@ == Seq::<T>::empty(),
            r.capacity() == if capacity == 0 { 1 } else { capacity as nat },
    {
        let cap = if capacity == 0 { 1 } else { capacity };
        RingBuffer { data: VecDeque::with_capacity(capacity), capacity: cap }
    }

    /// Appends a new item, evicting the oldest one if the buffer is full.
    pub fn push(&mut self, item: T)
        ensures
            final(self)@ == ring_push(old(self)@, old(self).capacity(), item),
            final(self).capacity() == old(self).capacity(),
    {
        proof {
            use_type_invariant(&*self);
        }
        let mut data = VecDeque::new();
        std::mem::swap(&mut data, &mut self.data);
        if data.len() >= self.capacity {
            data.pop_front();
        }
        data.push_back(item);
        self.data = data;
    }

    /// Number of items held.
    pub fn len(&self) -> (n: usize)
        ensures
            n == self@.len(),
            n <= self.capacity(),
    {
        proof {
            use_type_invariant(self);
        }
        self.data.len()
    }

    /// True if the buffer holds no item.
    pub fn is_empty(&self) -> (b: bool)
        ensures
            b == (self@.len() == 0),
    {
        self.data.len() == 0
    }

    /// The most recently pushed item, if any.
    pub fn latest(&self) -> (r: Option<&T>)
        ensures
            r == (if self@.len() == 0 { None } else { Some(&self@.last()) }),
    {
        let n = self.data.len();
        if n == 0 {
            None
        } else {
            Some(&self.data[n - 1])
        }
    }

    /// Iterates over the items in chronological order (oldest first).
    pub fn iter(&self) -> (it: Iter<'_, T>)
        ensures
            it.remaining() == self@.as_ref(),
    {
        self.data.iter()
    }

    /// The items as a vector in chronological order, each one cloned.
    pub fn to_vec(&self) -> (v: Vec<T>)
        ensures
            v@.len() == self@.len(),
            forall|i: int| 0 <= i < v@.len() ==> cloned::<T>(self@[i], #[trigger] v@[i]),
    {
        let mut v: Vec<T> = Vec::new();
        let n = self.data.len();
        let mut i: usize = 0;
        while i < n
            invariant
                n == self@.len(),
                i <= n,
                v@.len() == i,
                forall|j: int| 0 <= j < i ==> cloned::<T>(self@[j], #[trigger] v@[j]),
            decreases n - i,
        {
            let x = self.data[i].clone();
            v.push(x);
            i = i + 1;
        }
        v
    }
}

impl<T: Clone> Clone for RingBuffer<T> {
    fn clone(&self) -> (r: Self)
        ensures
            r@.len() == self@.len(),
            r.capacity() == self.capacity(),
            forall|i: int| 0 <= i < r@.len() ==> cloned::<T>(self@[i], #[trigger] r@[i]),
    {
        proof {
            use_type_invariant(self);
        }
        RingBuffer { data: self.data.clone(), capacity: self.capacity }
    }
}

/// After any sequence of pushes into an empty buffer of capacity `cap`, the
/// buffer holds exactly the last `cap` items pushed (all of them if fewer),
/// oldest first.
pub proof fn lemma_ring_keeps_latest<T>(cap: nat, items: Seq<T>)
    requires
        cap >= 1,
    ensures
        ring_push_all(Seq::empty(), cap, items) == items.subrange(
            if items.len() > cap { items.len() - cap } else { 0 },
            items.len() as int,
        ),
    decreases items.len(),
{
    if items.len() > 0 {
        let prev = items.drop_last();
        lemma_ring_keeps_latest(cap, prev);
        let n = items.len() as int;
        let s = ring_push_all(Seq::<T>::empty(), cap, prev);
        if prev.len() >= cap {
            assert(s.len() == cap);
            assert(s.drop_first().push(items.last()) =~= items.subrange(n - cap, n));
        } else {
            assert(s.push(items.last()) =~= items.subrange(0, n));
        }
    } else {
        assert(items.subrange(0, 0) =~= Seq::<T>::empty());
    }
}

} // verus!
