use vstd::prelude::*;

use crate::error::VvuError;
use crate::header::{HEADER_LEN, body_len_of, framed_len, header_from_bytes, is_framed};

verus! {

/// The bytes of `chunks`, one after another.
pub open spec fn join(chunks: Seq<Seq<u8>>) -> Seq<u8>
    decreases chunks.len(),
{
    if chunks.len() == 0 {
        seq![]
    } else {
        join(chunks.drop_last()) + chunks.last()
    }
}

/// The contents of a list of byte vectors.
pub open spec fn views(v: Seq<Vec<u8>>) -> Seq<Seq<u8>> {
    v.map_values(|b: Vec<u8>| b@)
}

/// The bytes of a list of write buffers, one after another.
pub open spec fn iov_bytes(iovs: Seq<Vec<u8>>) -> Seq<u8> {
    join(views(iovs))
}

/// The buffered bytes hold a header and more bytes than it declares.
pub open spec fn overflows(buf: Seq<u8>) -> bool {
    buf.len() >= HEADER_LEN && framed_len(buf) < buf.len()
}

/// The doorbell count after one more ring (it stops at `u64::MAX`).
pub open spec fn next_kicks(k: u64) -> u64 {
    if k < u64::MAX {
        (k + 1) as u64
    } else {
        k
    }
}

/// One write of `iovs` (with descriptors when `has_fds`) on an endpoint whose
/// buffer held `buf0`, on a queue holding `w0` rung `k0` times, left the buffer
/// holding `buf1`, the queue holding `w1` rung `k1` times, and returned `r`.
///
/// Descriptors are refused and nothing changes. Otherwise the bytes are
/// appended; bytes beyond the one message their header declares are refused;
/// one whole message is posted and the buffer emptied; fewer bytes stay
/// buffered. A write that is not refused rings the doorbell and reports every
/// byte of `iovs` as taken.
pub open spec fn send_post(
    buf0: Seq<u8>,
    buf1: Seq<u8>,
    w0: Seq<Seq<u8>>,
    w1: Seq<Seq<u8>>,
    k0: u64,
    k1: u64,
    iovs: Seq<Vec<u8>>,
    has_fds: bool,
    r: Result<usize, VvuError>,
) -> bool {
    let nb = buf0 + iov_bytes(iovs);
    if has_fds {
        &&& r == Err::<usize, VvuError>(VvuError::SideChannelUnsupported)
        &&& buf1 == buf0
        &&& w1 == w0
        &&& k1 == k0
    } else if overflows(nb) {
        &&& r == Err::<usize, VvuError>(VvuError::FramingViolation)
        &&& buf1 == nb
        &&& w1 == w0
        &&& k1 == k0
    } else {
        &&& r == Ok::<usize, VvuError>(iov_bytes(iovs).len() as usize)
        &&& k1 == next_kicks(k0)
        &&& if is_framed(nb) {
            buf1 == Seq::<u8>::empty() && w1 == w0.push(nb)
        } else {
            buf1 == nb && w1 == w0
        }
    }
}

/// What a series of writes, one per chunk, does to an empty transmit buffer:
/// the bytes left buffered, the messages written to the queue, and whether a
/// write failed (after which the rest are not made).
pub open spec fn run_sends(chunks: Seq<Seq<u8>>) -> (Seq<u8>, Seq<Seq<u8>>, bool)
    decreases chunks.len(),
{
    if chunks.len() == 0 {
        (seq![], seq![], false)
    } else {
        let (buf, writes, failed) = run_sends(chunks.drop_last());
        let nb = buf + chunks.last();
        if failed {
            (buf, writes, true)
        } else if overflows(nb) {
            (nb, writes, true)
        } else if is_framed(nb) {
            (seq![], writes.push(nb), false)
        } else {
            (nb, writes, false)
        }
    }
}

/// Bytes written on an endpoint that do not make a whole message yet.
pub struct EndpointTxBuffer {
    pub bytes: Vec<u8>,
}

impl EndpointTxBuffer {
    pub fn new() -> (r: Self)
        ensures
            r.bytes@ == Seq::<u8>::empty(),
    {
        EndpointTxBuffer { bytes: Vec::new() }
    }
}

/// The transmit virtqueue: the messages posted to it, in order, and how many
/// times its doorbell was rung.
pub struct Queue {
    writes: Vec<Vec<u8>>,
    kicks: u64,
}

impl Queue {
    /// The messages posted to the queue and not yet taken by the device.
    pub closed spec fn written(&self) -> Seq<Seq<u8>> {
        views(self.writes@)
    }

    /// How many times the doorbell was rung (it stops counting at `u64::MAX`).
    pub closed spec fn kicks(&self) -> u64 {
        self.kicks
    }

    pub fn new() -> (r: Self)
        ensures
            r.written() == Seq::<Seq<u8>>::empty(),
            r.kicks() == 0,
    {
        Queue { writes: Vec::new(), kicks: 0 }
    }

    /// Number of times the doorbell was rung.
    pub fn kick_count(&self) -> (r: u64)
        ensures
            r == self.kicks(),
    {
        self.kicks
    }

    /// Hands the posted messages to the device, oldest first.
    pub fn take_writes(&mut self) -> (r: Vec<Vec<u8>>)
        ensures
            views(r@) == old(self).written(),
            final(self).written() == Seq::<Seq<u8>>::empty(),
            final(self).kicks() == old(self).kicks(),
    {
        let mut r: Vec<Vec<u8>> = Vec::new();
        std::mem::swap(&mut r, &mut self.writes);
        assert(views(self.writes@) =~= Seq::<Seq<u8>>::empty());
        r
    }

    fn post(&mut self, msg: Vec<u8>)
        ensures
            final(self).written() == old(self).written().push(msg@),
            final(self).kicks() == old(self).kicks(),
    {
        self.writes.push(msg);
        assert(views(self.writes@) =~= views(old(self).writes@).push(msg@));
    }

    fn kick(&mut self)
        ensures
            final(self).written() == old(self).written(),
            final(self).kicks() == next_kicks(old(self).kicks()),
    {
        if self.kicks < u64::MAX {
            self.kicks = self.kicks + 1;
        }
    }

    /// Appends the bytes of `iovs` to `tx_state`. When the buffered bytes then
    /// make exactly one message, it is posted to the queue as one unit and the
    /// buffer is emptied; when they hold more than one message's worth, the
    /// write fails. Returns the number of bytes taken from `iovs`, and rings the
    /// doorbell on success.
    pub fn send_bufs(
        &mut self,
        iovs: &[Vec<u8>],
        fds: Option<&[i32]>,
        tx_state: &mut EndpointTxBuffer,
    ) -> (r: Result<usize, VvuError>)
        requires
            old(tx_state).bytes@.len() + iov_bytes(iovs@).len() <= usize::MAX,
        ensures
            send_post(
                old(tx_state).bytes@,
                final(tx_state).bytes@,
                old(self).written(),
                final(self).written(),
                old(self).kicks(),
                final(self).kicks(),
                iovs@,
                fds is Some,
                r,
            ),
    {
        if fds.is_some() {
            return Err(VvuError::SideChannelUnsupported);
        }
        let ghost old_bytes = tx_state.bytes@;
        let mut size: usize = 0;
        let mut i: usize = 0;
        proof {
            lemma_join_prefix_len(views(iovs@), 0);
        }
        while i < iovs.len()
            invariant
                i <= iovs@.len(),
                size == iov_bytes(iovs@.subrange(0, i as int)).len(),
                tx_state.bytes@ == old_bytes + iov_bytes(iovs@.subrange(0, i as int)),
                old_bytes.len() + iov_bytes(iovs@).len() <= usize::MAX,
            decreases iovs@.len() - i,
        {
            proof {
                lemma_views_prefix_push(iovs@, i as int);
                lemma_join_prefix_len(views(iovs@), i as int + 1);
                assert(views(iovs@).subrange(0, i as int + 1) =~= views(iovs@.subrange(0, i as int + 1)));
            }
            tx_state.bytes.extend_from_slice(iovs[i].as_slice());
            size = size + iovs[i].len();
            i = i + 1;
            assert(tx_state.bytes@ =~= old_bytes + iov_bytes(iovs@.subrange(0, i as int)));
        }
        assert(iovs@.subrange(0, i as int) =~= iovs@);
        let ghost nb = tx_state.bytes@;
        match header_from_bytes(tx_state.bytes.as_slice()) {
            Some(hdr) => {
                let needed: u64 = hdr.get_size() as u64 + HEADER_LEN as u64;
                let have: u64 = tx_state.bytes.len() as u64;
                if needed < have {
                    return Err(VvuError::FramingViolation);
                } else if needed == have {
                    let mut msg: Vec<u8> = Vec::new();
                    std::mem::swap(&mut msg, &mut tx_state.bytes);
                    self.post(msg);
                }
            },
            None => {},
        }
        self.kick();
        Ok(size)
    }
}

/// Writes whose bytes, taken together, make exactly one message post exactly
/// that message to the queue, once, and leave nothing buffered: no write fails,
/// and the message goes out with the write that completes it.
pub proof fn lemma_one_message_one_write(chunks: Seq<Seq<u8>>)
    requires
        is_framed(join(chunks)),
    ensures
        run_sends(chunks) == (Seq::<u8>::empty(), seq![join(chunks)], false),
{
    assert(join(chunks) =~= join(chunks).subrange(0, join(chunks).len() as int));
    lemma_prefix_of_message(chunks, join(chunks));
}

/// While the writes so far hold a proper prefix of message `m`, it is all
/// buffered; once they hold all of `m`, `m` has been posted once.
proof fn lemma_prefix_of_message(chunks: Seq<Seq<u8>>, m: Seq<u8>)
    requires
        is_framed(m),
        join(chunks).len() <= m.len(),
        join(chunks) == m.subrange(0, join(chunks).len() as int),
    ensures
        run_sends(chunks) == if join(chunks).len() < m.len() {
            (join(chunks), Seq::<Seq<u8>>::empty(), false)
        } else {
            (Seq::<u8>::empty(), seq![m], false)
        },
    decreases chunks.len(),
{
    if chunks.len() == 0 {
        assert(join(chunks).len() == 0);
    } else {
        let pre = chunks.drop_last();
        let x = chunks.last();
        let j = join(chunks);
        assert(j == join(pre) + x);
        assert(join(pre) =~= m.subrange(0, join(pre).len() as int));
        lemma_prefix_of_message(pre, m);
        if join(pre).len() < m.len() {
            if j.len() >= HEADER_LEN {
                assert(j[8] == m[8] && j[9] == m[9] && j[10] == m[10] && j[11] == m[11]);
                assert(body_len_of(j) == body_len_of(m));
                if j.len() == m.len() {
                    assert(j =~= m);
                }
            }
        } else {
            assert(x.len() == 0);
            assert(Seq::<u8>::empty() + x =~= Seq::<u8>::empty());
        }
    }
}

/// `views` of a prefix one longer is `views` of the prefix, then one more entry.
proof fn lemma_views_prefix_push(v: Seq<Vec<u8>>, i: int)
    requires
        0 <= i < v.len(),
    ensures
        views(v.subrange(0, i + 1)).drop_last() == views(v.subrange(0, i)),
        views(v.subrange(0, i + 1)).last() == v[i]@,
        views(v.subrange(0, i + 1)).len() == i + 1,
{
    assert(views(v.subrange(0, i + 1)).drop_last() =~= views(v.subrange(0, i)));
}

/// A prefix of the chunks joins to no more bytes than all of them.
pub(crate) proof fn lemma_join_prefix_len(chunks: Seq<Seq<u8>>, i: int)
    requires
        0 <= i <= chunks.len(),
    ensures
        join(chunks.subrange(0, i)).len() <= join(chunks).len(),
    decreases chunks.len(),
{
    if i == chunks.len() {
        assert(chunks.subrange(0, i) =~= chunks);
    } else {
        assert(chunks.drop_last().subrange(0, i) =~= chunks.subrange(0, i));
        lemma_join_prefix_len(chunks.drop_last(), i);
    }
}

} // verus!
