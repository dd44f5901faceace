use vstd::prelude::*;

use crate::channel::MsgChannel;
use crate::error::VvuError;
use crate::txq::{iov_bytes, join, views};

verus! {

/// What a reader holds: the messages queued for it, the message it is reading
/// (empty when none), and how far into that message it has read.
pub struct RxState {
    pub inbox: Seq<Seq<u8>>,
    pub current: Seq<u8>,
    pub offset: nat,
}

/// One read of `len` bytes: the reader's next state, and the bytes read or the
/// failure.
///
/// With no message in hand, the reader takes the oldest queued one; there being
/// none is fatal, and an empty one means the other side disconnected. The read
/// must lie within the message in hand; when it reaches the message's end, the
/// message is dropped.
pub open spec fn rx_step(s: RxState, len: nat) -> (RxState, Result<Seq<u8>, VvuError>) {
    if s.current.len() == 0 && s.inbox.len() == 0 {
        (s, Err(VvuError::Fatal))
    } else if s.current.len() == 0 && s.inbox[0].len() == 0 {
        (RxState { inbox: s.inbox.drop_first(), current: seq![], offset: 0 }, Err(VvuError::Disconnected))
    } else {
        let (inbox, m, off) = if s.current.len() == 0 {
            (s.inbox.drop_first(), s.inbox[0], 0nat)
        } else {
            (s.inbox, s.current, s.offset)
        };
        if off + len > m.len() {
            (RxState { inbox, current: m, offset: off }, Err(VvuError::FramingViolation))
        } else if off + len == m.len() {
            (RxState { inbox, current: seq![], offset: 0 }, Ok(m.subrange(off as int, m.len() as int)))
        } else {
            (
                RxState { inbox, current: m, offset: off + len },
                Ok(m.subrange(off as int, (off + len) as int)),
            )
        }
    }
}

/// The message a read draws from, and where in it the read starts: the one in
/// hand, or else the oldest queued one, from its start.
pub open spec fn read_source(s: RxState) -> (Seq<u8>, nat) {
    if s.current.len() == 0 {
        (s.inbox[0], 0nat)
    } else {
        (s.current, s.offset)
    }
}

/// A read never returns bytes of two messages: what it returns is a stretch of
/// the one message it draws from, and a read of more bytes than that message
/// has left fails with `FramingViolation`.
pub proof fn lemma_reads_stay_in_one_message(s: RxState, len: nat)
    requires
        s.current.len() > 0 || (s.inbox.len() > 0 && s.inbox[0].len() > 0),
    ensures
        ({
            let (m, off) = read_source(s);
            if off + len > m.len() {
                rx_step(s, len).1 == Err::<Seq<u8>, VvuError>(VvuError::FramingViolation)
            } else {
                rx_step(s, len).1 == Ok::<Seq<u8>, VvuError>(m.subrange(off as int, (off + len) as int))
            }
        }),
{
}

/// An empty message queued for a reader with nothing in hand makes the next
/// read fail with `Disconnected`, not `Fatal`.
pub proof fn lemma_empty_message_disconnects(s: RxState, len: nat)
    requires
        s.current.len() == 0,
        s.inbox.len() > 0,
        s.inbox[0].len() == 0,
    ensures
        rx_step(s, len).1 == Err::<Seq<u8>, VvuError>(VvuError::Disconnected),
{
}

/// Reads into buffers of the given sizes, one after another, stopping at the
/// first failure: the reader's state then, and what was read or the failure.
pub open spec fn rx_steps(s: RxState, bufs: Seq<Seq<u8>>) -> (RxState, Result<Seq<Seq<u8>>, VvuError>)
    decreases bufs.len(),
{
    if bufs.len() == 0 {
        (s, Ok(seq![]))
    } else {
        let (s1, r1) = rx_steps(s, bufs.drop_last());
        match r1 {
            Err(e) => (s1, Err(e)),
            Ok(outs) => {
                let (s2, r2) = rx_step(s1, bufs.last().len());
                match r2 {
                    Err(e) => (s2, Err(e)),
                    Ok(o) => (s2, Ok(outs.push(o))),
                }
            },
        }
    }
}

/// Turns the whole messages queued on a channel back into a byte stream whose
/// reads never span two messages.
pub struct VfioReceiver {
    inbox: MsgChannel,
    buf: Vec<u8>,
    offset: usize,
}

impl View for VfioReceiver {
    type V = RxState;

    closed spec fn view(&self) -> RxState {
        RxState { inbox: self.inbox.messages(), current: self.buf@, offset: self.offset as nat }
    }
}

impl VfioReceiver {
    /// The reader's internal invariant.
    pub closed spec fn wf(&self) -> bool {
        &&& self.inbox.wf()
        &&& self.offset <= self.buf@.len()
        &&& self.buf@.len() == 0 ==> self.offset == 0
        &&& self.buf@.len() > 0 ==> self.offset < self.buf@.len()
    }

    pub fn new() -> (r: Self)
        ensures
            r.wf(),
            r@ == (RxState { inbox: seq![], current: seq![], offset: 0 }),
    {
        let r = VfioReceiver { inbox: MsgChannel::new(), buf: Vec::new(), offset: 0 };
        assert(r@.current =~= seq![]);
        r
    }

    /// The signaling counter: how many messages are queued for the reader.
    pub fn event_count(&self) -> (r: u64)
        requires
            self.wf(),
        ensures
            r as nat == self@.inbox.len(),
    {
        self.inbox.count()
    }

    /// Whether a read can go ahead without waiting: a message is in hand or
    /// queued.
    pub fn ready(&self) -> (r: bool)
        requires
            self.wf(),
        ensures
            r == (self@.current.len() > 0 || self@.inbox.len() > 0),
    {
        self.buf.len() > 0 || self.inbox.count() > 0
    }

    /// Queues a whole message for the reader. Fails, queuing nothing, when the
    /// signaling counter cannot be raised.
    pub fn deliver(&mut self, msg: Vec<u8>) -> (r: Result<(), VvuError>)
        requires
            old(self).wf(),
        ensures
            final(self).wf(),
            final(self)@.current == old(self)@.current,
            final(self)@.offset == old(self)@.offset,
            old(self)@.inbox.len() < u64::MAX ==> {
                &&& r is Ok
                &&& final(self)@.inbox == old(self)@.inbox.push(msg@)
            },
            old(self)@.inbox.len() >= u64::MAX ==> {
                &&& r == Err::<(), VvuError>(VvuError::Fatal)
                &&& final(self)@.inbox == old(self)@.inbox
            },
    {
        self.inbox.send(msg)
    }

    /// Reads the next `len` bytes of the stream.
    pub fn recv_into_buf(&mut self, len: usize) -> (r: Result<Vec<u8>, VvuError>)
        requires
            old(self).wf(),
        ensures
            final(self).wf(),
            final(self)@ == rx_step(old(self)@, len as nat).0,
            match r {
                Ok(v) => rx_step(old(self)@, len as nat).1 == Ok::<Seq<u8>, VvuError>(v@),
                Err(e) => rx_step(old(self)@, len as nat).1 == Err::<Seq<u8>, VvuError>(e),
            },
    {
        if self.buf.len() == 0 {
            match self.inbox.recv() {
                None => {
                    return Err(VvuError::Fatal);
                },
                Some(data) => {
                    if data.len() == 0 {
                        assert(self@.current =~= seq![]);
                        return Err(VvuError::Disconnected);
                    }
                    self.buf = data;
                    self.offset = 0;
                },
            }
        }
        let ghost m = self.buf@;
        let ghost off = self.offset;
        if len > self.buf.len() - self.offset {
            return Err(VvuError::FramingViolation);
        }
        let end: usize = self.offset + len;
        let mut out: Vec<u8> = Vec::new();
        let mut i: usize = self.offset;
        while i < end
            invariant
                off <= i <= end <= m.len(),
                self.buf@ == m,
                self.offset == off,
                out@ == m.subrange(off as int, i as int),
            decreases end - i,
        {
            out.push(self.buf[i]);
            i = i + 1;
            assert(out@ =~= m.subrange(off as int, i as int));
        }
        if end == self.buf.len() {
            self.buf = Vec::new();
            self.offset = 0;
            assert(self@.current =~= seq![]);
        } else {
            self.offset = end;
        }
        Ok(out)
    }

    /// Fills each of `bufs` in turn, keeping each one's length, and returns the
    /// number of bytes read. Stops at the first failed read.
    pub fn recv_into_bufs(&mut self, bufs: &mut Vec<Vec<u8>>) -> (r: Result<usize, VvuError>)
        requires
            old(self).wf(),
            iov_bytes(old(bufs)@).len() <= usize::MAX,
        ensures
            final(self).wf(),
            final(self)@ == rx_steps(old(self)@, views(old(bufs)@)).0,
            final(bufs)@.len() == old(bufs)@.len(),
            match r {
                Ok(n) => {
                    &&& rx_steps(old(self)@, views(old(bufs)@)).1 == Ok::<Seq<Seq<u8>>, VvuError>(
                        views(final(bufs)@),
                    )
                    &&& n as nat == iov_bytes(old(bufs)@).len()
                },
                Err(e) => rx_steps(old(self)@, views(old(bufs)@)).1 == Err::<Seq<Seq<u8>>, VvuError>(e),
            },
    {
        let ghost s0 = self@;
        let ghost orig = views(bufs@);
        let mut size: usize = 0;
        let mut i: usize = 0;
        proof {
            assert(orig.subrange(0, 0) =~= seq![]);
        }
        while i < bufs.len()
            invariant
                self.wf(),
                i <= bufs@.len() == orig.len(),
                bufs@.len() == old(bufs)@.len(),
                orig == views(old(bufs)@),
                s0 == old(self)@,
                join(orig).len() <= usize::MAX,
                self@ == rx_steps(s0, orig.subrange(0, i as int)).0,
                rx_steps(s0, orig.subrange(0, i as int)).1 == Ok::<Seq<Seq<u8>>, VvuError>(
                    views(bufs@).subrange(0, i as int),
                ),
                forall|j: int| i <= j < orig.len() ==> views(bufs@)[j] == orig[j],
                forall|j: int| 0 <= j < i ==> views(bufs@)[j].len() == orig[j].len(),
                size as nat == join(orig.subrange(0, i as int)).len(),
            decreases orig.len() - i,
        {
            let ghost pre = orig.subrange(0, i as int + 1);
            proof {
                assert(pre.drop_last() =~= orig.subrange(0, i as int));
                assert(pre.last() == orig[i as int]);
            }
            let len = bufs[i].len();
            let ghost s1 = self@;
            assert(len == orig[i as int].len()) by {
                assert(views(bufs@)[i as int] == orig[i as int]);
            };
            match self.recv_into_buf(len) {
                Err(e) => {
                    proof {
                        assert(rx_steps(s0, pre).1 == Err::<Seq<Seq<u8>>, VvuError>(e));
                        lemma_rx_steps_stay_failed(s0, orig, i as int + 1);
                        assert(orig.subrange(0, orig.len() as int) =~= orig);
                    }
                    return Err(e);
                },
                Ok(data) => {
                    proof {
                        lemma_join_prefix_grows(orig, i as int);
                    }
                    let ghost before = views(bufs@);
                    bufs[i] = data;
                    assert(views(bufs@) =~= before.update(i as int, data@));
                    assert(views(bufs@).subrange(0, i as int + 1) =~= before.subrange(0, i as int).push(data@));
                    assert(rx_steps(s0, pre).1 == Ok::<Seq<Seq<u8>>, VvuError>(before.subrange(0, i as int).push(data@)));
                    size = size + len;
                    i = i + 1;
                },
            }
        }
        proof {
            assert(orig.subrange(0, i as int) =~= orig);
            assert(views(bufs@).subrange(0, i as int) =~= views(bufs@));
        }
        Ok(size)
    }
}

/// Once a read has failed, later reads in the same call are not made.
proof fn lemma_rx_steps_stay_failed(s: RxState, bufs: Seq<Seq<u8>>, k: int)
    requires
        0 <= k <= bufs.len(),
        rx_steps(s, bufs.subrange(0, k)).1 is Err,
    ensures
        rx_steps(s, bufs) == rx_steps(s, bufs.subrange(0, k)),
    decreases bufs.len() - k,
{
    if k == bufs.len() {
        assert(bufs.subrange(0, k) =~= bufs);
    } else {
        let next = bufs.subrange(0, k + 1);
        assert(next.drop_last() =~= bufs.subrange(0, k));
        lemma_rx_steps_stay_failed(s, bufs, k + 1);
    }
}

/// Joining one more chunk adds its length.
proof fn lemma_join_prefix_grows(chunks: Seq<Seq<u8>>, i: int)
    requires
        0 <= i < chunks.len(),
    ensures
        join(chunks.subrange(0, i + 1)).len() == join(chunks.subrange(0, i)).len() + chunks[i].len(),
        join(chunks.subrange(0, i + 1)).len() <= join(chunks).len(),
{
    assert(chunks.subrange(0, i + 1).drop_last() =~= chunks.subrange(0, i));
    crate::txq::lemma_join_prefix_len(chunks, i + 1);
}

} // verus!
