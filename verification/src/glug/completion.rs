//! Completion ring: slots reserved in command order, filled by the engines in
//! any order, and released from the head only.
//!
//! A reserved slot is named by a ticket. Tickets count upwards from the head
//! and wrap around the range of `usize`, so a ticket keeps naming its slot
//! however many heads are popped before the slot is filled.

use crate::common::base::{zeros16, Configurable, Event};
use crate::common::queue::Queue;
use vstd::prelude::*;

verus! {

#[derive(Debug, Clone, Copy)]
pub struct CompletionConfig {
    pub event_queue_size: usize,
}

impl Default for CompletionConfig {
    fn default() -> (c: Self)
        ensures
            c.event_queue_size == 4,
    {
        CompletionConfig { event_queue_size: 4 }
    }
}

/// The ticket of the slot `i` places behind the head, for a head ticket
/// `head`.
pub open spec fn ticket_at(head: usize, i: int) -> usize {
    if head + i > usize::MAX {
        (head + i - usize::MAX - 1) as usize
    } else {
        (head + i) as usize
    }
}

/// How many places behind the head the slot of ticket `t` lies.
pub open spec fn offset_of(head: usize, t: usize) -> int {
    if t >= head {
        t - head
    } else {
        t - head + usize::MAX + 1
    }
}

/// A ticket leads back to the place it was issued for.
pub proof fn lemma_ticket_offset(head: usize, i: int)
    requires
        0 <= i <= usize::MAX,
    ensures
        offset_of(head, ticket_at(head, i)) == i,
{
}

/// Popping the head moves every other slot one place forward and changes no
/// ticket.
pub proof fn lemma_offset_after_pop(head: usize, t: usize)
    requires
        offset_of(head, t) >= 1,
    ensures
        offset_of(ticket_at(head, 1), t) == offset_of(head, t) - 1,
{
}

/// Two tickets that name the same place are the same ticket.
pub proof fn lemma_offset_injective(head: usize, t1: usize, t2: usize)
    requires
        offset_of(head, t1) == offset_of(head, t2),
    ensures
        t1 == t2,
{
}

pub struct Completion {
    eq: Queue<(Event, bool)>,
    head: usize,
}

impl Completion {
    /// The reserved slots, head first: the event and whether it was set.
    pub closed spec fn slots(&self) -> Seq<(Event, bool)> {
        self.eq@
    }

    /// The ticket of the head slot.
    pub closed spec fn head(&self) -> usize {
        self.head
    }

    /// The number of slots that can be reserved at once.
    pub closed spec fn capacity(&self) -> usize {
        self.eq.capacity()
    }

    pub open spec fn wf(&self) -> bool {
        self.slots().len() <= self.capacity()
    }

    /// The place of ticket `t` in `slots()`.
    pub open spec fn slot_of(&self, t: usize) -> int {
        offset_of(self.head(), t)
    }

    /// The ticket names a reserved slot that was not set yet.
    pub open spec fn awaits(&self, t: usize) -> bool {
        self.slot_of(t) < self.slots().len() && !self.slots()[self.slot_of(t)].1
    }

    pub fn empty(&self) -> (b: bool)
        ensures
            b == (self.slots().len() == 0),
    {
        self.eq.empty()
    }

    pub fn full(&self) -> (b: bool)
        ensures
            b == (self.slots().len() == self.capacity()),
    {
        self.eq.full()
    }

    pub fn len(&self) -> (n: usize)
        ensures
            n == self.slots().len(),
    {
        self.eq.len()
    }

    /// Reserves the slot behind the last one and returns its ticket; `None`
    /// when the ring is full, which the caller treats as backpressure.
    pub fn allocate(&mut self) -> (ticket: Option<usize>)
        requires
            old(self).wf(),
        ensures
            final(self).wf(),
            final(self).head() == old(self).head(),
            final(self).capacity() == old(self).capacity(),
            old(self).slots().len() == old(self).capacity()
                ==> ticket is None && final(self).slots() == old(self).slots(),
            old(self).slots().len() != old(self).capacity() ==> ticket == Some(
                ticket_at(old(self).head(), old(self).slots().len() as int),
            ) && final(self).slots() == old(self).slots().push(final(self).slots().last())
                && final(self).slots().last().0@ == zeros16() && !final(self).slots().last().1
                && final(self).slot_of(ticket->0) == old(self).slots().len(),
    {
        let n: usize = self.eq.len();
        let blank = Event::default();
        if self.eq.push((blank, false)) {
            proof {
                lemma_ticket_offset(self.head, n as int);
            }
            Some(self.head.wrapping_add(n))
        } else {
            None
        }
    }

    /// Records `event` in the slot of ticket `idx` and marks it done. A slot
    /// is set once.
    pub fn set(&mut self, idx: usize, event: Event)
        requires
            old(self).awaits(idx),
        ensures
            final(self).slots() == old(self).slots().update(
                old(self).slot_of(idx),
                (event, true),
            ),
            final(self).head() == old(self).head(),
            final(self).capacity() == old(self).capacity(),
    {
        let off: usize = idx.wrapping_sub(self.head);
        match self.eq.get_mut(off) {
            Some(slot) => {
                *slot = (event, true);
            },
            None => {},
        }
    }

    /// Releases the head slot if it was set and returns its event; otherwise
    /// changes nothing.
    pub fn pop_completion(&mut self) -> (event: Option<Event>)
        ensures
            final(self).capacity() == old(self).capacity(),
            old(self).slots().len() > 0 && old(self).slots()[0].1 ==> event == Some(
                old(self).slots()[0].0,
            ) && final(self).slots() == old(self).slots().drop_first() && final(self).head()
                == ticket_at(old(self).head(), 1),
            !(old(self).slots().len() > 0 && old(self).slots()[0].1)
                ==> event is None && final(self).slots() == old(self).slots()
                && final(self).head() == old(self).head(),
    {
        let ready: bool = match self.eq.peek() {
            Some(slot) => slot.1,
            None => false,
        };
        if ready {
            self.head = self.head.wrapping_add(1);
            match self.eq.pop() {
                Some(slot) => Some(slot.0),
                None => None,
            }
        } else {
            None
        }
    }
}

impl Configurable<CompletionConfig> for Completion {
    open spec fn config_ok(config: CompletionConfig) -> bool {
        true
    }

    fn new(config: CompletionConfig) -> (c: Self)
        ensures
            c.slots() == Seq::<(Event, bool)>::empty(),
            c.capacity() == config.event_queue_size,
            c.head() == 0,
            c.wf(),
    {
        Completion { eq: Queue::new(config.event_queue_size), head: 0 }
    }
}

} // verus!
