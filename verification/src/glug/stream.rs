//! Submission streams: several command FIFOs, each of which lets one
//! command be in flight at a time.

use crate::common::base::{Command, Configurable};
use crate::common::queue::Queue;
use vstd::prelude::*;

verus! {

#[derive(Debug, Clone)]
pub struct StreamConfig {
    pub num_sq: usize,
    pub sq_entries: Vec<usize>,
}

impl Default for StreamConfig {
    fn default() -> (c: Self)
        ensures
            c.num_sq == 4,
            c.sq_entries@ == seq![8usize, 8usize, 8usize, 8usize],
    {
        let mut sq_entries: Vec<usize> = Vec::new();
        sq_entries.push(8);
        sq_entries.push(8);
        sq_entries.push(8);
        sq_entries.push(8);
        assert(sq_entries@ =~= seq![8usize, 8usize, 8usize, 8usize]);
        StreamConfig { num_sq: 4, sq_entries }
    }
}

pub struct Stream {
    sq: Vec<Queue<Command>>,
    sq_in_flight: Vec<bool>,
}

impl Stream {
    /// The number of streams.
    pub closed spec fn num(&self) -> nat {
        self.sq@.len()
    }

    /// The commands queued on stream `sid`, head first.
    pub closed spec fn queued(&self, sid: int) -> Seq<Command> {
        self.sq@[sid]@
    }

    /// The bound on the commands queued on stream `sid`.
    pub closed spec fn capacity(&self, sid: int) -> usize {
        self.sq@[sid].capacity()
    }

    /// Whether a command of stream `sid` is in flight.
    pub closed spec fn in_flight(&self, sid: int) -> bool {
        self.sq_in_flight@[sid]
    }

    pub closed spec fn wf(&self) -> bool {
        self.sq_in_flight@.len() == self.sq@.len()
    }

    /// Every stream but `sid` is as it was.
    pub open spec fn others_kept(&self, before: &Stream, sid: int) -> bool {
        &&& self.num() == before.num()
        &&& forall|s: int|
            0 <= s < self.num() && s != sid ==> self.queued(s) == before.queued(s)
                && self.in_flight(s) == before.in_flight(s)
        &&& forall|s: int| 0 <= s < self.num() ==> self.capacity(s) == before.capacity(s)
    }

    pub fn can_enqueue(&self, sid: u8) -> (b: bool)
        requires
            self.wf(),
            sid < self.num(),
        ensures
            b == (self.queued(sid as int).len() != self.capacity(sid as int)),
    {
        !self.sq[sid as usize].full()
    }

    /// Appends `cmd` to stream `sid`; a command for a full stream is
    /// dropped.
    pub fn enqueue(&mut self, sid: u8, cmd: Command)
        requires
            old(self).wf(),
            sid < old(self).num(),
        ensures
            final(self).wf(),
            final(self).others_kept(old(self), sid as int),
            final(self).in_flight(sid as int) == old(self).in_flight(sid as int),
            final(self).queued(sid as int)
                == if old(self).queued(sid as int).len() != old(self).capacity(sid as int) {
                old(self).queued(sid as int).push(cmd)
            } else {
                old(self).queued(sid as int)
            },
    {
        self.sq[sid as usize].push(cmd);
    }

    /// Takes the head of stream `sid` unless a command of the stream is in
    /// flight already. The stream counts as in flight afterwards, also when
    /// it was empty.
    pub fn try_pop(&mut self, sid: u8) -> (cmd: Option<Command>)
        requires
            old(self).wf(),
            sid < old(self).num(),
        ensures
            final(self).wf(),
            final(self).others_kept(old(self), sid as int),
            final(self).in_flight(sid as int),
            old(self).in_flight(sid as int) || old(self).queued(sid as int).len() == 0 ==> cmd
                is None && final(self).queued(sid as int) == old(self).queued(sid as int),
            !old(self).in_flight(sid as int) && old(self).queued(sid as int).len() > 0 ==> cmd
                == Some(old(self).queued(sid as int)[0]) && final(self).queued(sid as int)
                == old(self).queued(sid as int).drop_first(),
    {
        if self.sq_in_flight[sid as usize] {
            None
        } else {
            self.sq_in_flight[sid as usize] = true;
            self.sq[sid as usize].pop()
        }
    }

    /// Marks stream `sid` as having no command in flight.
    pub fn clear_in_flight(&mut self, sid: u8)
        requires
            old(self).wf(),
            sid < old(self).num(),
        ensures
            final(self).wf(),
            final(self).others_kept(old(self), sid as int),
            !final(self).in_flight(sid as int),
            final(self).queued(sid as int) == old(self).queued(sid as int),
    {
        self.sq_in_flight[sid as usize] = false;
    }
}

impl Configurable<StreamConfig> for Stream {
    /// Every stream needs its number of entries.
    open spec fn config_ok(config: StreamConfig) -> bool {
        config.num_sq <= config.sq_entries@.len()
    }

    fn new(config: StreamConfig) -> (s: Self)
        ensures
            s.wf(),
            s.num() == config.num_sq,
            forall|sid: int|
                0 <= sid < config.num_sq ==> s.queued(sid).len() == 0 && !s.in_flight(sid)
                    && s.capacity(sid) == config.sq_entries@[sid],
    {
        let mut sq: Vec<Queue<Command>> = Vec::new();
        let mut sq_in_flight: Vec<bool> = Vec::new();
        let mut i: usize = 0;
        while i < config.num_sq
            invariant
                i <= config.num_sq <= config.sq_entries@.len(),
                sq@.len() == i,
                sq_in_flight@.len() == i,
                forall|sid: int|
                    0 <= sid < i ==> (#[trigger] sq@[sid])@.len() == 0 && !sq_in_flight@[sid]
                        && sq@[sid].capacity() == config.sq_entries@[sid],
            decreases config.num_sq - i,
        {
            sq.push(Queue::new(config.sq_entries[i]));
            sq_in_flight.push(false);
            i += 1;
        }
        Stream { sq, sq_in_flight }
    }
}

} // verus!
