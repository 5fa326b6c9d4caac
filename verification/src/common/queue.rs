//! Fixed-capacity FIFO polled once per cycle.

use std::collections::VecDeque;
use vstd::prelude::*;

verus! {

/// A FIFO that never holds more than `capacity()` items.
///
/// Its view is the sequence of queued items, head first.
#[derive(Debug, Default, Clone)]
pub struct Queue<T> where T: Default {
    data: VecDeque<T>,
    cap: usize,
}

impl<T: Default> View for Queue<T> {
    type V = Seq<T>;

    closed spec fn view(&self) -> Seq<T> {
        self.data@
    }
}

/// `VecDeque::get_mut`: a mutable borrow of the item at `idx`, or `None`
/// when `idx` is past the end; writing through the borrow replaces that one
/// item and nothing else.
#[verifier::external_body]
fn deque_get_mut<T>(data: &mut VecDeque<T>, idx: usize) -> (slot: Option<&mut T>)
    ensures
        match slot {
            Some(item) => idx < old(data)@.len() && *item == old(data)@[idx as int]
                && final(data)@ == old(data)@.update(idx as int, *final(item)),
            None => idx >= old(data)@.len() && final(data)@ == old(data)@,
        },
{
    data.get_mut(idx)
}

impl<T: Default> Queue<T> {
    /// The fixed bound on the number of queued items.
    pub closed spec fn capacity(&self) -> usize {
        self.cap
    }

    /// The queue never exceeds its capacity.
    pub open spec fn wf(&self) -> bool {
        self@.len() <= self.capacity()
    }

    pub fn new(cap: usize) -> (q: Self)
        ensures
            q@ == Seq::<T>::empty(),
            q.capacity() == cap,
            q.wf(),
    {
        Queue { data: VecDeque::with_capacity(cap), cap }
    }

    pub fn full(&self) -> (b: bool)
        ensures
            b == (self@.len() == self.capacity()),
    {
        self.data.len() == self.cap
    }

    pub fn empty(&self) -> (b: bool)
        ensures
            b == (self@.len() == 0),
    {
        self.data.len() == 0
    }

    /// Appends `item` unless the queue is full; says whether it did.
    pub fn push(&mut self, item: T) -> (pushed: bool)
        ensures
            pushed == (old(self)@.len() != old(self).capacity()),
            pushed ==> final(self)@ == old(self)@.push(item),
            !pushed ==> final(self)@ == old(self)@,
            final(self).capacity() == old(self).capacity(),
    {
        if self.full() {
            false
        } else {
            self.data.push_back(item);
            true
        }
    }

    /// Removes and returns the head, if there is one.
    pub fn pop(&mut self) -> (head: Option<T>)
        ensures
            old(self)@.len() == 0 ==> head is None && final(self)@ == old(self)@,
            old(self)@.len() > 0
                ==> head == Some(old(self)@[0]) && final(self)@ == old(self)@.drop_first(),
            final(self).capacity() == old(self).capacity(),
    {
        self.data.pop_front()
    }

    /// Borrows the head, if there is one.
    pub fn peek(&self) -> (head: Option<&T>)
        ensures
            self@.len() == 0 ==> head is None,
            self@.len() > 0 ==> head == Some(&self@[0]),
    {
        if self.data.len() == 0 {
            None
        } else {
            Some(&self.data[0])
        }
    }

    /// Borrows the item at `idx` for writing; `None` when `idx` is past the
    /// end. Only that item can change through the borrow.
    pub fn get_mut(&mut self, idx: usize) -> (slot: Option<&mut T>)
        ensures
            match slot {
                Some(item) => idx < old(self)@.len() && *item == old(self)@[idx as int]
                    && final(self)@ == old(self)@.update(idx as int, *final(item)),
                None => idx >= old(self)@.len() && final(self)@ == old(self)@,
            },
            final(self).capacity() == old(self).capacity(),
    {
        deque_get_mut(&mut self.data, idx)
    }

    pub fn len(&self) -> (n: usize)
        ensures
            n == self@.len(),
    {
        self.data.len()
    }
}

} // verus!
