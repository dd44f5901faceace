use vstd::prelude::*;

use crate::error::VvuError;
use crate::header::{HEADER_LEN, header_from_bytes, is_framed, is_reply_msg};
use crate::receiver::VfioReceiver;
use crate::txq::views;

verus! {

/// The messages among `chains` whose reply flag equals `reply`, in their order.
pub open spec fn routed(chains: Seq<Seq<u8>>, reply: bool) -> Seq<Seq<u8>>
    decreases chains.len(),
{
    if chains.len() == 0 {
        seq![]
    } else {
        let r = routed(chains.drop_last(), reply);
        if is_reply_msg(chains.last()) == reply {
            r.push(chains.last())
        } else {
            r
        }
    }
}

/// Every one of `chains` holds exactly one message.
pub open spec fn all_framed(chains: Seq<Seq<u8>>) -> bool {
    forall|j: int| 0 <= j < chains.len() ==> is_framed(#[trigger] chains[j])
}

/// Each message goes to exactly one reader: replies to the backend, the rest to
/// the frontend, so the two routes together hold every message.
pub proof fn lemma_routes_partition(chains: Seq<Seq<u8>>)
    ensures
        routed(chains, true).len() + routed(chains, false).len() == chains.len(),
        forall|j: int| 0 <= j < routed(chains, true).len() ==> is_reply_msg(#[trigger] routed(chains, true)[j]),
        forall|j: int| 0 <= j < routed(chains, false).len() ==> !is_reply_msg(#[trigger] routed(chains, false)[j]),
    decreases chains.len(),
{
    if chains.len() > 0 {
        lemma_routes_partition(chains.drop_last());
    }
}

/// Copies one receive chain into a buffer of its own.
fn copy_chain(chain: &Vec<u8>) -> (r: Vec<u8>)
    ensures
        r@ == chain@,
{
    let mut out: Vec<u8> = Vec::new();
    let mut i: usize = 0;
    while i < chain.len()
        invariant
            i <= chain@.len(),
            out@ == chain@.subrange(0, i as int),
        decreases chain@.len() - i,
    {
        out.push(chain[i]);
        i = i + 1;
        assert(out@ =~= chain@.subrange(0, i as int));
    }
    assert(out@ =~= chain@);
    out
}

/// Drains a batch of completed receive chains, in order: each must hold exactly
/// one message; replies are queued for the backend reader and the rest for the
/// frontend reader. The first chain that is not one whole message stops the
/// batch with `FramingViolation`, after the chains before it were delivered.
pub fn process_rxq(
    chains: &[Vec<u8>],
    frontend: &mut VfioReceiver,
    backend: &mut VfioReceiver,
) -> (r: Result<(), VvuError>)
    requires
        old(frontend).wf(),
        old(backend).wf(),
        old(frontend)@.inbox.len() + chains@.len() < u64::MAX,
        old(backend)@.inbox.len() + chains@.len() < u64::MAX,
    ensures
        final(frontend).wf(),
        final(backend).wf(),
        final(frontend)@.current == old(frontend)@.current,
        final(frontend)@.offset == old(frontend)@.offset,
        final(backend)@.current == old(backend)@.current,
        final(backend)@.offset == old(backend)@.offset,
        all_framed(views(chains@)) ==> {
            &&& r is Ok
            &&& final(frontend)@.inbox == old(frontend)@.inbox + routed(views(chains@), false)
            &&& final(backend)@.inbox == old(backend)@.inbox + routed(views(chains@), true)
        },
        !all_framed(views(chains@)) ==> {
            &&& r == Err::<(), VvuError>(VvuError::FramingViolation)
            &&& exists|k: int|
                0 <= k < chains@.len() && !is_framed(#[trigger] views(chains@)[k])
                    && all_framed(views(chains@).subrange(0, k))
                    && final(frontend)@.inbox == old(frontend)@.inbox + routed(
                    views(chains@).subrange(0, k),
                    false,
                ) && final(backend)@.inbox == old(backend)@.inbox + routed(
                    views(chains@).subrange(0, k),
                    true,
                )
        },
{
    let ghost cs = views(chains@);
    let ghost f0 = frontend@.inbox;
    let ghost b0 = backend@.inbox;
    let mut i: usize = 0;
    proof {
        assert(cs.subrange(0, 0) =~= seq![]);
        assert(f0 + seq![] =~= f0);
        assert(b0 + seq![] =~= b0);
    }
    while i < chains.len()
        invariant
            i <= chains@.len() == cs.len(),
            cs == views(chains@),
            frontend.wf(),
            backend.wf(),
            frontend@.current == old(frontend)@.current,
            frontend@.offset == old(frontend)@.offset,
            backend@.current == old(backend)@.current,
            backend@.offset == old(backend)@.offset,
            f0 == old(frontend)@.inbox,
            b0 == old(backend)@.inbox,
            f0.len() + cs.len() < u64::MAX,
            b0.len() + cs.len() < u64::MAX,
            all_framed(cs.subrange(0, i as int)),
            frontend@.inbox == f0 + routed(cs.subrange(0, i as int), false),
            backend@.inbox == b0 + routed(cs.subrange(0, i as int), true),
        decreases cs.len() - i,
    {
        let ghost pre = cs.subrange(0, i as int + 1);
        proof {
            assert(pre.drop_last() =~= cs.subrange(0, i as int));
            assert(pre.last() == cs[i as int]);
            lemma_routed_len(cs.subrange(0, i as int), false);
            lemma_routed_len(cs.subrange(0, i as int), true);
        }
        let chain = &chains[i];
        if chain.len() < HEADER_LEN {
            proof {
                assert(!is_framed(cs[i as int]));
            }
            return Err(VvuError::FramingViolation);
        }
        let buf = copy_chain(chain);
        let hdr = match header_from_bytes(buf.as_slice()) {
            Some(h) => h,
            None => {
                return Err(VvuError::FramingViolation);
            },
        };
        if hdr.get_size() as u64 + HEADER_LEN as u64 != buf.len() as u64 {
            proof {
                assert(!is_framed(cs[i as int]));
            }
            return Err(VvuError::FramingViolation);
        }
        let reply = hdr.is_reply();
        if reply {
            let sent = backend.deliver(buf);
            assert(sent is Ok);
        } else {
            let sent = frontend.deliver(buf);
            assert(sent is Ok);
        }
        i = i + 1;
        proof {
            assert(all_framed(cs.subrange(0, i as int))) by {
                assert forall|j: int| 0 <= j < i implies is_framed(#[trigger] cs.subrange(0, i as int)[j]) by {
                    if j < i - 1 {
                        assert(cs.subrange(0, i as int)[j] == cs.subrange(0, i as int - 1)[j]);
                    }
                }
            }
            assert(frontend@.inbox =~= f0 + routed(cs.subrange(0, i as int), false));
            assert(backend@.inbox =~= b0 + routed(cs.subrange(0, i as int), true));
        }
    }
    proof {
        assert(cs.subrange(0, i as int) =~= cs);
    }
    Ok(())
}

/// A route holds no more messages than there are chains.
proof fn lemma_routed_len(chains: Seq<Seq<u8>>, reply: bool)
    ensures
        routed(chains, reply).len() <= chains.len(),
    decreases chains.len(),
{
    if chains.len() > 0 {
        lemma_routed_len(chains.drop_last(), reply);
    }
}

} // verus!
