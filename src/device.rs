use vstd::prelude::*;

use crate::error::VvuError;
use crate::receiver::{RxState, VfioReceiver, rx_steps};
use crate::rxq::{all_framed, process_rxq, routed};
use crate::txq::{EndpointTxBuffer, Queue, iov_bytes, send_post, views};

verus! {

/// The transport device before it is started: the queues it exposes.
pub struct VvuPciDevice {
    /// Number of virtqueues; the first is the receive queue, the second the
    /// transmit queue.
    pub num_queues: usize,
}

/// The lifecycle of a device: not yet started, or running with its frontend
/// reader, its frontend write buffer and the transmit queue shared with the
/// backend endpoint.
pub enum DeviceState {
    Initialized { device: VvuPciDevice },
    Running { rxq_receiver: VfioReceiver, tx_state: EndpointTxBuffer, txq: Queue },
}

/// The endpoint for backend-initiated requests: its own reader and write
/// buffer; its writes go to the device's transmit queue.
pub struct BackendChannel {
    receiver: VfioReceiver,
    tx_state: EndpointTxBuffer,
}

/// A reader with nothing queued and nothing in hand.
pub open spec fn empty_rx() -> RxState {
    RxState { inbox: seq![], current: seq![], offset: 0 }
}

impl BackendChannel {
    /// The state of the endpoint's reader.
    pub closed spec fn rx(&self) -> RxState {
        self.receiver@
    }

    /// The bytes written on the endpoint that do not make a message yet.
    pub closed spec fn tx_pending(&self) -> Seq<u8> {
        self.tx_state.bytes@
    }

    pub closed spec fn wf(&self) -> bool {
        self.receiver.wf()
    }

    fn new() -> (r: Self)
        ensures
            r.wf(),
            r.rx() == empty_rx(),
            r.tx_pending() == Seq::<u8>::empty(),
    {
        BackendChannel { receiver: VfioReceiver::new(), tx_state: EndpointTxBuffer::new() }
    }

    /// The signaling counter of the endpoint's reader.
    pub fn event_count(&self) -> (r: u64)
        requires
            self.wf(),
        ensures
            r as nat == self.rx().inbox.len(),
    {
        self.receiver.event_count()
    }

    /// Whether a read on the endpoint can go ahead without waiting.
    pub fn ready(&self) -> (r: bool)
        requires
            self.wf(),
        ensures
            r == (self.rx().current.len() > 0 || self.rx().inbox.len() > 0),
    {
        self.receiver.ready()
    }

    /// Number of bytes written on the endpoint that do not make a message yet.
    pub fn tx_pending_len(&self) -> (r: usize)
        ensures
            r == self.tx_pending().len(),
    {
        self.tx_state.bytes.len()
    }

    /// The endpoint needs no start of its own.
    pub fn start(&mut self) -> (r: Result<(), VvuError>)
        ensures
            r is Ok,
            *final(self) == *old(self),
    {
        Ok(())
    }

    /// Reads from the endpoint's stream, as `VfioReceiver::recv_into_bufs`.
    pub fn recv_into_bufs(&mut self, bufs: &mut Vec<Vec<u8>>) -> (r: Result<usize, VvuError>)
        requires
            old(self).wf(),
            iov_bytes(old(bufs)@).len() <= usize::MAX,
        ensures
            final(self).wf(),
            final(self).tx_pending() == old(self).tx_pending(),
            final(self).rx() == rx_steps(old(self).rx(), views(old(bufs)@)).0,
            final(bufs)@.len() == old(bufs)@.len(),
            match r {
                Ok(n) => {
                    &&& rx_steps(old(self).rx(), views(old(bufs)@)).1 == Ok::<Seq<Seq<u8>>, VvuError>(
                        views(final(bufs)@),
                    )
                    &&& n as nat == iov_bytes(old(bufs)@).len()
                },
                Err(e) => rx_steps(old(self).rx(), views(old(bufs)@)).1 == Err::<Seq<Seq<u8>>, VvuError>(e),
            },
    {
        self.receiver.recv_into_bufs(bufs)
    }

    /// A backend endpoint has no backend endpoint of its own to hand out.
    pub fn create_slave_request_endpoint(&mut self) -> (r: Result<BackendChannel, VvuError>)
        ensures
            r matches Err(e) && e == VvuError::Fatal,
            *final(self) == *old(self),
    {
        Err(VvuError::Fatal)
    }
}

/// A vhost-user transport over a pair of virtqueues, seen as a byte stream by
/// the frontend and, through a second endpoint, by the backend.
pub struct VvuDevice {
    state: DeviceState,
    backend_channel: Option<BackendChannel>,
}

/// `start` took the device from `d0` to `d1` and returned `r`.
pub open spec fn start_post(d0: VvuDevice, d1: VvuDevice, r: Result<(), VvuError>) -> bool {
    if d0.is_running() {
        r == Err::<(), VvuError>(VvuError::AlreadyStarted) && d1 == d0
    } else if d0.num_queues() < 2 {
        r == Err::<(), VvuError>(VvuError::Fatal) && d1 == d0
    } else {
        &&& r is Ok
        &&& d1.is_running()
        &&& d1.frontend() == empty_rx()
        &&& d1.tx_pending() == Seq::<u8>::empty()
        &&& d1.tx_written() == Seq::<Seq<u8>>::empty()
        &&& d1.tx_kicks() == 0
        &&& d1.has_backend()
        &&& d1.held_backend().wf()
        &&& d1.held_backend().rx() == empty_rx()
        &&& d1.held_backend().tx_pending() == Seq::<u8>::empty()
    }
}

/// `create_slave_request_endpoint` took the device from `d0` to `d1` and
/// returned `r`: the held backend endpoint moves out, once.
pub open spec fn take_backend_post(d0: VvuDevice, d1: VvuDevice, r: Result<BackendChannel, VvuError>) -> bool {
    &&& !d1.has_backend()
    &&& d1.is_running() == d0.is_running()
    &&& d1.num_queues() == d0.num_queues()
    &&& d1.frontend() == d0.frontend()
    &&& d1.tx_pending() == d0.tx_pending()
    &&& d1.tx_written() == d0.tx_written()
    &&& d1.tx_kicks() == d0.tx_kicks()
    &&& if d0.has_backend() {
        r == Ok::<BackendChannel, VvuError>(d0.held_backend())
    } else {
        r == Err::<BackendChannel, VvuError>(VvuError::Fatal)
    }
}

/// A second `start` fails with `AlreadyStarted` and changes nothing, so the
/// running device that the first one produced is left as it was.
pub proof fn lemma_start_once(
    d0: VvuDevice,
    d1: VvuDevice,
    d2: VvuDevice,
    r1: Result<(), VvuError>,
    r2: Result<(), VvuError>,
)
    requires
        start_post(d0, d1, r1),
        start_post(d1, d2, r2),
        r1 is Ok,
    ensures
        r2 == Err::<(), VvuError>(VvuError::AlreadyStarted),
        d2 == d1,
{
}

/// The backend endpoint is handed out at most once: of two calls, the second
/// fails.
pub proof fn lemma_backend_endpoint_once(
    d0: VvuDevice,
    d1: VvuDevice,
    d2: VvuDevice,
    r1: Result<BackendChannel, VvuError>,
    r2: Result<BackendChannel, VvuError>,
)
    requires
        take_backend_post(d0, d1, r1),
        take_backend_post(d1, d2, r2),
    ensures
        r2 is Err,
{
}

impl VvuDevice {
    pub closed spec fn is_running(&self) -> bool {
        self.state is Running
    }

    /// The queue count of a device that has not started (0 once running).
    pub closed spec fn num_queues(&self) -> nat {
        match self.state {
            DeviceState::Initialized { device } => device.num_queues as nat,
            DeviceState::Running { .. } => 0,
        }
    }

    /// The frontend reader of a running device.
    pub closed spec fn frontend(&self) -> RxState {
        match self.state {
            DeviceState::Running { rxq_receiver, .. } => rxq_receiver@,
            DeviceState::Initialized { .. } => empty_rx(),
        }
    }

    /// Bytes written on the frontend endpoint that do not make a message yet.
    pub closed spec fn tx_pending(&self) -> Seq<u8> {
        match self.state {
            DeviceState::Running { tx_state, .. } => tx_state.bytes@,
            DeviceState::Initialized { .. } => seq![],
        }
    }

    /// Messages posted to the transmit queue and not yet taken.
    pub closed spec fn tx_written(&self) -> Seq<Seq<u8>> {
        match self.state {
            DeviceState::Running { txq, .. } => txq.written(),
            DeviceState::Initialized { .. } => seq![],
        }
    }

    /// Doorbell rings of the transmit queue.
    pub closed spec fn tx_kicks(&self) -> u64 {
        match self.state {
            DeviceState::Running { txq, .. } => txq.kicks(),
            DeviceState::Initialized { .. } => 0,
        }
    }

    /// The device still holds the backend endpoint.
    pub closed spec fn has_backend(&self) -> bool {
        self.backend_channel is Some
    }

    /// The backend endpoint the device holds, when it holds one.
    pub closed spec fn held_backend(&self) -> BackendChannel {
        self.backend_channel->Some_0
    }

    pub closed spec fn wf(&self) -> bool {
        &&& match self.state {
            DeviceState::Running { rxq_receiver, .. } => rxq_receiver.wf(),
            DeviceState::Initialized { .. } => true,
        }
        &&& self.backend_channel matches Some(b) ==> b.wf()
    }

    pub fn new(device: VvuPciDevice) -> (r: Self)
        ensures
            r.wf(),
            !r.is_running(),
            !r.has_backend(),
            r.num_queues() == device.num_queues,
    {
        VvuDevice { state: DeviceState::Initialized { device }, backend_channel: None }
    }

    /// The frontend reader's signaling counter: the messages queued for it
    /// (none before the device starts).
    pub fn event_count(&self) -> (r: u64)
        requires
            self.wf(),
        ensures
            r as nat == self.frontend().inbox.len(),
    {
        match &self.state {
            DeviceState::Initialized { .. } => 0,
            DeviceState::Running { rxq_receiver, .. } => rxq_receiver.event_count(),
        }
    }

    /// Whether a frontend read can go ahead without waiting (never before
    /// `start`).
    pub fn ready(&self) -> (r: bool)
        requires
            self.wf(),
        ensures
            r == (self.is_running() && (self.frontend().current.len() > 0 || self.frontend().inbox.len() > 0)),
    {
        match &self.state {
            DeviceState::Initialized { .. } => false,
            DeviceState::Running { rxq_receiver, .. } => rxq_receiver.ready(),
        }
    }

    /// Takes the device from `Initialized` to `Running`, once: sets up the
    /// frontend reader and write buffer, the transmit queue, and the backend
    /// endpoint that `create_slave_request_endpoint` hands out. The device
    /// must expose a receive and a transmit queue.
    pub fn start(&mut self) -> (r: Result<(), VvuError>)
        requires
            old(self).wf(),
        ensures
            final(self).wf(),
            start_post(*old(self), *final(self), r),
    {
        match &self.state {
            DeviceState::Running { .. } => {
                return Err(VvuError::AlreadyStarted);
            },
            DeviceState::Initialized { device } => {
                if device.num_queues < 2 {
                    return Err(VvuError::Fatal);
                }
            },
        }
        self.backend_channel = Some(BackendChannel::new());
        self.state = DeviceState::Running {
            rxq_receiver: VfioReceiver::new(),
            tx_state: EndpointTxBuffer::new(),
            txq: Queue::new(),
        };
        Ok(())
    }

    /// Writes frontend bytes to the transmit queue, as `Queue::send_bufs`.
    /// Fails with `NotStarted`, changing nothing, before `start`.
    pub fn send_bufs(&mut self, iovs: &[Vec<u8>], fds: Option<&[i32]>) -> (r: Result<usize, VvuError>)
        requires
            old(self).wf(),
            old(self).tx_pending().len() + iov_bytes(iovs@).len() <= usize::MAX,
        ensures
            final(self).wf(),
            final(self).is_running() == old(self).is_running(),
            final(self).frontend() == old(self).frontend(),
            final(self).has_backend() == old(self).has_backend(),
            final(self).held_backend() == old(self).held_backend(),
            !old(self).is_running() ==> r == Err::<usize, VvuError>(VvuError::NotStarted) && *final(self)
                == *old(self),
            old(self).is_running() ==> send_post(
                old(self).tx_pending(),
                final(self).tx_pending(),
                old(self).tx_written(),
                final(self).tx_written(),
                old(self).tx_kicks(),
                final(self).tx_kicks(),
                iovs@,
                fds is Some,
                r,
            ),
    {
        match &mut self.state {
            DeviceState::Initialized { .. } => Err(VvuError::NotStarted),
            DeviceState::Running { txq, tx_state, .. } => txq.send_bufs(iovs, fds, tx_state),
        }
    }

    /// Writes backend bytes from `backend`'s buffer to the shared transmit
    /// queue, as `Queue::send_bufs`. Fails with `NotStarted`, changing nothing,
    /// before `start`.
    pub fn send_backend_bufs(
        &mut self,
        backend: &mut BackendChannel,
        iovs: &[Vec<u8>],
        fds: Option<&[i32]>,
    ) -> (r: Result<usize, VvuError>)
        requires
            old(self).wf(),
            old(backend).wf(),
            old(backend).tx_pending().len() + iov_bytes(iovs@).len() <= usize::MAX,
        ensures
            final(self).wf(),
            final(backend).wf(),
            final(self).is_running() == old(self).is_running(),
            final(self).frontend() == old(self).frontend(),
            final(self).tx_pending() == old(self).tx_pending(),
            final(self).has_backend() == old(self).has_backend(),
            final(self).held_backend() == old(self).held_backend(),
            final(backend).rx() == old(backend).rx(),
            !old(self).is_running() ==> r == Err::<usize, VvuError>(VvuError::NotStarted) && *final(self)
                == *old(self) && *final(backend) == *old(backend),
            old(self).is_running() ==> send_post(
                old(backend).tx_pending(),
                final(backend).tx_pending(),
                old(self).tx_written(),
                final(self).tx_written(),
                old(self).tx_kicks(),
                final(self).tx_kicks(),
                iovs@,
                fds is Some,
                r,
            ),
    {
        match &mut self.state {
            DeviceState::Initialized { .. } => Err(VvuError::NotStarted),
            DeviceState::Running { txq, .. } => txq.send_bufs(iovs, fds, &mut backend.tx_state),
        }
    }

    /// Reads from the frontend stream, as `VfioReceiver::recv_into_bufs`.
    /// Fails with `NotStarted`, changing nothing, before `start`.
    pub fn recv_into_bufs(&mut self, bufs: &mut Vec<Vec<u8>>) -> (r: Result<usize, VvuError>)
        requires
            old(self).wf(),
            iov_bytes(old(bufs)@).len() <= usize::MAX,
        ensures
            final(self).wf(),
            final(self).is_running() == old(self).is_running(),
            final(self).tx_pending() == old(self).tx_pending(),
            final(self).tx_written() == old(self).tx_written(),
            final(self).tx_kicks() == old(self).tx_kicks(),
            final(self).has_backend() == old(self).has_backend(),
            final(self).held_backend() == old(self).held_backend(),
            final(bufs)@.len() == old(bufs)@.len(),
            !old(self).is_running() ==> r == Err::<usize, VvuError>(VvuError::NotStarted) && *final(self)
                == *old(self) && *final(bufs) == *old(bufs),
            old(self).is_running() ==> {
                &&& final(self).frontend() == rx_steps(old(self).frontend(), views(old(bufs)@)).0
                &&& match r {
                    Ok(n) => {
                        &&& rx_steps(old(self).frontend(), views(old(bufs)@)).1 == Ok::<
                            Seq<Seq<u8>>,
                            VvuError,
                        >(views(final(bufs)@))
                        &&& n as nat == iov_bytes(old(bufs)@).len()
                    },
                    Err(e) => rx_steps(old(self).frontend(), views(old(bufs)@)).1 == Err::<
                        Seq<Seq<u8>>,
                        VvuError,
                    >(e),
                }
            },
    {
        match &mut self.state {
            DeviceState::Initialized { .. } => Err(VvuError::NotStarted),
            DeviceState::Running { rxq_receiver, .. } => rxq_receiver.recv_into_bufs(bufs),
        }
    }

    /// Hands out the backend endpoint; only the first call succeeds.
    pub fn create_slave_request_endpoint(&mut self) -> (r: Result<BackendChannel, VvuError>)
        requires
            old(self).wf(),
        ensures
            final(self).wf(),
            take_backend_post(*old(self), *final(self), r),
            r matches Ok(b) ==> b.wf(),
    {
        match self.backend_channel.take() {
            Some(b) => Ok(b),
            None => Err(VvuError::Fatal),
        }
    }

    /// Delivers a batch of completed receive chains, as `process_rxq`: replies
    /// to `backend`, the rest to the frontend reader. Fails with `NotStarted`,
    /// changing nothing, before `start`.
    pub fn process_rxq(&mut self, chains: &[Vec<u8>], backend: &mut BackendChannel) -> (r: Result<(), VvuError>)
        requires
            old(self).wf(),
            old(backend).wf(),
            old(self).frontend().inbox.len() + chains@.len() < u64::MAX,
            old(backend).rx().inbox.len() + chains@.len() < u64::MAX,
        ensures
            final(self).wf(),
            final(backend).wf(),
            final(self).is_running() == old(self).is_running(),
            final(self).tx_pending() == old(self).tx_pending(),
            final(self).tx_written() == old(self).tx_written(),
            final(self).tx_kicks() == old(self).tx_kicks(),
            final(self).has_backend() == old(self).has_backend(),
            final(self).held_backend() == old(self).held_backend(),
            final(backend).tx_pending() == old(backend).tx_pending(),
            !old(self).is_running() ==> r == Err::<(), VvuError>(VvuError::NotStarted) && *final(self)
                == *old(self) && *final(backend) == *old(backend),
            old(self).is_running() ==> {
                &&& final(self).frontend().current == old(self).frontend().current
                &&& final(self).frontend().offset == old(self).frontend().offset
                &&& final(backend).rx().current == old(backend).rx().current
                &&& final(backend).rx().offset == old(backend).rx().offset
                &&& all_framed(views(chains@)) ==> {
                    &&& r is Ok
                    &&& final(self).frontend().inbox == old(self).frontend().inbox + routed(views(chains@), false)
                    &&& final(backend).rx().inbox == old(backend).rx().inbox + routed(views(chains@), true)
                }
                &&& !all_framed(views(chains@)) ==> {
                    &&& r == Err::<(), VvuError>(VvuError::FramingViolation)
                    &&& exists|k: int|
                        0 <= k < chains@.len() && !crate::header::is_framed(#[trigger] views(chains@)[k])
                            && all_framed(views(chains@).subrange(0, k))
                            && final(self).frontend().inbox == old(self).frontend().inbox + routed(
                            views(chains@).subrange(0, k),
                            false,
                        ) && final(backend).rx().inbox == old(backend).rx().inbox + routed(
                            views(chains@).subrange(0, k),
                            true,
                        )
                }
            },
    {
        match &mut self.state {
            DeviceState::Initialized { .. } => Err(VvuError::NotStarted),
            DeviceState::Running { rxq_receiver, .. } => process_rxq(chains, rxq_receiver, &mut backend.receiver),
        }
    }

    /// Hands the messages posted to the transmit queue to the device, oldest
    /// first. Fails with `NotStarted` before `start`.
    pub fn take_tx_writes(&mut self) -> (r: Result<Vec<Vec<u8>>, VvuError>)
        requires
            old(self).wf(),
        ensures
            final(self).wf(),
            final(self).is_running() == old(self).is_running(),
            final(self).frontend() == old(self).frontend(),
            final(self).tx_pending() == old(self).tx_pending(),
            final(self).tx_kicks() == old(self).tx_kicks(),
            final(self).has_backend() == old(self).has_backend(),
            final(self).held_backend() == old(self).held_backend(),
            !old(self).is_running() ==> r == Err::<Vec<Vec<u8>>, VvuError>(VvuError::NotStarted) && *final(self)
                == *old(self),
            old(self).is_running() ==> {
                &&& r matches Ok(v) && views(v@) == old(self).tx_written()
                &&& final(self).tx_written() == Seq::<Seq<u8>>::empty()
            },
    {
        match &mut self.state {
            DeviceState::Initialized { .. } => Err(VvuError::NotStarted),
            DeviceState::Running { txq, .. } => Ok(txq.take_writes()),
        }
    }

    /// Number of frontend bytes written that do not make a message yet.
    pub fn tx_pending_len(&self) -> (r: usize)
        ensures
            r == self.tx_pending().len(),
    {
        match &self.state {
            DeviceState::Initialized { .. } => 0,
            DeviceState::Running { tx_state, .. } => tx_state.bytes.len(),
        }
    }

    /// Doorbell rings of the transmit queue (none before `start`).
    pub fn tx_kick_count(&self) -> (r: u64)
        ensures
            r == self.tx_kicks(),
    {
        match &self.state {
            DeviceState::Initialized { .. } => 0,
            DeviceState::Running { txq, .. } => txq.kick_count(),
        }
    }
}

} // verus!
