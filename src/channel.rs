use vstd::prelude::*;

use crate::error::VvuError;
use crate::txq::views;

verus! {

/// A FIFO of whole messages paired with a signaling counter: the counter holds
/// the number of messages queued and not yet taken by the reader.
pub struct MsgChannel {
    queue: Vec<Vec<u8>>,
    count: u64,
}

impl MsgChannel {
    /// The queued messages, oldest first.
    pub closed spec fn messages(&self) -> Seq<Seq<u8>> {
        views(self.queue@)
    }

    /// The counter agrees with the queue.
    pub closed spec fn wf(&self) -> bool {
        self.count as nat == self.queue@.len()
    }

    pub fn new() -> (r: Self)
        ensures
            r.wf(),
            r.messages() == Seq::<Seq<u8>>::empty(),
    {
        MsgChannel { queue: Vec::new(), count: 0 }
    }

    /// The signaling counter.
    pub fn count(&self) -> (r: u64)
        requires
            self.wf(),
        ensures
            r as nat == self.messages().len(),
    {
        self.count
    }

    /// Queues `msg` and raises the counter. Fails, queuing nothing, when the
    /// counter is at its limit and cannot be signaled.
    pub fn send(&mut self, msg: Vec<u8>) -> (r: Result<(), VvuError>)
        requires
            old(self).wf(),
        ensures
            final(self).wf(),
            old(self).messages().len() < u64::MAX ==> {
                &&& r is Ok
                &&& final(self).messages() == old(self).messages().push(msg@)
            },
            old(self).messages().len() >= u64::MAX ==> {
                &&& r == Err::<(), VvuError>(VvuError::Fatal)
                &&& final(self).messages() == old(self).messages()
            },
    {
        if self.count == u64::MAX {
            return Err(VvuError::Fatal);
        }
        self.queue.push(msg);
        self.count = self.count + 1;
        assert(views(self.queue@) =~= views(old(self).queue@).push(msg@));
        Ok(())
    }

    /// Takes the oldest message and lowers the counter; `None` when nothing is
    /// queued.
    pub fn recv(&mut self) -> (r: Option<Vec<u8>>)
        requires
            old(self).wf(),
        ensures
            final(self).wf(),
            old(self).messages().len() == 0 ==> {
                &&& r is None
                &&& final(self).messages() == old(self).messages()
            },
            old(self).messages().len() > 0 ==> {
                &&& r matches Some(m) && m@ == old(self).messages()[0]
                &&& final(self).messages() == old(self).messages().drop_first()
            },
    {
        if self.queue.len() == 0 {
            return None;
        }
        let m = self.queue.remove(0);
        self.count = self.count - 1;
        assert(views(self.queue@) =~= views(old(self).queue@).drop_first());
        Some(m)
    }
}

} // verus!
