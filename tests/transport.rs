use vvu::device::{VvuDevice, VvuPciDevice};
use vvu::error::VvuError;
use vvu::header::{header_from_bytes, read_le_u32, HEADER_LEN, REPLY_FLAG};
use vvu::receiver::VfioReceiver;
use vvu::rxq::process_rxq;
use vvu::txq::{EndpointTxBuffer, Queue};

fn header(request: u32, flags: u32, size: u32) -> Vec<u8> {
    let mut v = Vec::new();
    v.extend_from_slice(&request.to_le_bytes());
    v.extend_from_slice(&flags.to_le_bytes());
    v.extend_from_slice(&size.to_le_bytes());
    v
}

fn message(request: u32, flags: u32, body: &[u8]) -> Vec<u8> {
    let mut v = header(request, flags, body.len() as u32);
    v.extend_from_slice(body);
    v
}

fn started() -> VvuDevice {
    let mut d = VvuDevice::new(VvuPciDevice { num_queues: 2 });
    assert_eq!(d.start(), Ok(()));
    d
}

#[test]
fn header_needs_twelve_bytes() {
    assert_eq!(HEADER_LEN, 12);
    assert!(header_from_bytes(&[0u8; 11]).is_none());
    let h = header_from_bytes(&header(3, REPLY_FLAG | 1, 0x0102_0304)).unwrap();
    assert_eq!(h.request, 3);
    assert_eq!(h.flags, 5);
    assert_eq!(h.get_size(), 0x0102_0304);
    assert!(h.is_reply());
    let h = header_from_bytes(&header(3, 1, 0)).unwrap();
    assert!(!h.is_reply());
}

#[test]
fn le_u32_reads_little_endian() {
    assert_eq!(read_le_u32(&[0xaa, 0x78, 0x56, 0x34, 0x12], 1), 0x1234_5678);
    assert_eq!(read_le_u32(&[0xff, 0xff, 0xff, 0xff], 0), u32::MAX);
}

#[test]
fn split_message_is_written_once_when_complete() {
    let mut d = started();
    let msg = message(1, 1, &[9, 8, 7, 6]);
    assert_eq!(d.send_bufs(&[msg[..8].to_vec()], None), Ok(8));
    assert_eq!(d.take_tx_writes(), Ok(vec![]));
    assert_eq!(d.send_bufs(&[msg[8..].to_vec()], None), Ok(8));
    let writes = d.take_tx_writes().unwrap();
    assert_eq!(writes.len(), 1);
    assert_eq!(writes[0], msg);
    assert_eq!(writes[0].len(), 16);
    assert_eq!(d.tx_kick_count(), 2);
}

#[test]
fn many_slices_make_one_write() {
    let mut q = Queue::new();
    let mut tx = EndpointTxBuffer::new();
    let msg = message(2, 0, &[1, 2, 3]);
    let parts = vec![msg[..5].to_vec(), vec![], msg[5..13].to_vec(), msg[13..].to_vec()];
    assert_eq!(q.send_bufs(&parts, None, &mut tx), Ok(15));
    assert!(tx.bytes.is_empty());
    assert_eq!(q.take_writes(), vec![msg]);
    assert_eq!(q.kick_count(), 1);
}

#[test]
fn header_only_message_is_written() {
    let mut d = started();
    let msg = header(4, 0, 0);
    assert_eq!(d.send_bufs(&[msg.clone()], None), Ok(12));
    assert_eq!(d.take_tx_writes(), Ok(vec![msg]));
}

#[test]
fn bytes_beyond_message_are_refused() {
    let mut d = started();
    let mut two = message(1, 0, &[1, 2]);
    two.extend_from_slice(&message(1, 0, &[3]));
    assert_eq!(d.send_bufs(&[two], None), Err(VvuError::FramingViolation));
    assert_eq!(d.take_tx_writes(), Ok(vec![]));
}

#[test]
fn descriptors_are_refused() {
    let mut d = started();
    let msg = header(1, 0, 0);
    let fds = [3i32];
    assert_eq!(d.send_bufs(&[msg], Some(&fds)), Err(VvuError::SideChannelUnsupported));
    assert_eq!(d.take_tx_writes(), Ok(vec![]));
    assert_eq!(d.tx_kick_count(), 0);
}

#[test]
fn operations_before_start_fail() {
    let mut d = VvuDevice::new(VvuPciDevice { num_queues: 2 });
    assert_eq!(d.send_bufs(&[vec![1]], None), Err(VvuError::NotStarted));
    let mut bufs = vec![vec![0u8; 4]];
    assert_eq!(d.recv_into_bufs(&mut bufs), Err(VvuError::NotStarted));
    assert_eq!(d.take_tx_writes(), Err(VvuError::NotStarted));
    assert_eq!(d.event_count(), 0);
    assert!(d.create_slave_request_endpoint().is_err());
}

#[test]
fn start_twice_fails_and_keeps_running_device() {
    let mut d = started();
    assert_eq!(d.send_bufs(&[vec![1, 2, 3]], None), Ok(3));
    assert_eq!(d.start(), Err(VvuError::AlreadyStarted));
    let rest = message(0, 0, &[])[3..].to_vec();
    let mut first = vec![1u8, 2, 3];
    first.extend_from_slice(&rest);
    assert_eq!(d.send_bufs(&[rest], None), Ok(9));
    assert_eq!(d.take_tx_writes(), Ok(vec![first]));
}

#[test]
fn start_needs_two_queues() {
    let mut d = VvuDevice::new(VvuPciDevice { num_queues: 1 });
    assert_eq!(d.start(), Err(VvuError::Fatal));
    assert_eq!(d.send_bufs(&[vec![1]], None), Err(VvuError::NotStarted));
}

#[test]
fn backend_endpoint_is_handed_out_once() {
    let mut d = started();
    let mut b = d.create_slave_request_endpoint().ok().unwrap();
    assert!(d.create_slave_request_endpoint().is_err());
    assert_eq!(b.create_slave_request_endpoint().err(), Some(VvuError::Fatal));
    assert_eq!(b.start(), Ok(()));
}

#[test]
fn backend_writes_share_the_transmit_queue() {
    let mut d = started();
    let mut b = d.create_slave_request_endpoint().ok().unwrap();
    let front = message(1, 0, &[1]);
    let back = message(2, 0, &[2, 2]);
    assert_eq!(d.send_bufs(&[front[..4].to_vec()], None), Ok(4));
    assert_eq!(d.send_backend_bufs(&mut b, &[back.clone()], None), Ok(14));
    assert_eq!(d.send_bufs(&[front[4..].to_vec()], None), Ok(9));
    assert_eq!(d.take_tx_writes(), Ok(vec![back, front]));
}

#[test]
fn read_within_message() {
    let mut r = VfioReceiver::new();
    let msg = message(7, 0, &[1, 2, 3, 4]);
    assert_eq!(r.deliver(msg.clone()), Ok(()));
    assert_eq!(r.event_count(), 1);
    assert_eq!(r.recv_into_buf(12), Ok(msg[..12].to_vec()));
    assert_eq!(r.event_count(), 0);
    assert_eq!(r.recv_into_buf(4), Ok(vec![1, 2, 3, 4]));
}

#[test]
fn read_across_message_boundary_fails() {
    let mut r = VfioReceiver::new();
    assert_eq!(r.deliver(message(7, 0, &[1, 2])), Ok(()));
    assert_eq!(r.deliver(message(8, 0, &[])), Ok(()));
    assert_eq!(r.recv_into_buf(12).map(|v| v.len()), Ok(12));
    assert_eq!(r.recv_into_buf(3), Err(VvuError::FramingViolation));
    assert_eq!(r.recv_into_buf(2), Ok(vec![1, 2]));
    assert_eq!(r.recv_into_buf(12), Ok(header(8, 0, 0)));
}

#[test]
fn empty_message_means_disconnected() {
    let mut r = VfioReceiver::new();
    assert_eq!(r.deliver(vec![]), Ok(()));
    assert_eq!(r.recv_into_buf(12), Err(VvuError::Disconnected));
    assert_eq!(r.recv_into_buf(12), Err(VvuError::Fatal));
}

#[test]
fn recv_into_bufs_fills_each_buffer() {
    let mut d = started();
    let mut b = d.create_slave_request_endpoint().ok().unwrap();
    let msg = message(5, 0, &[4, 5, 6]);
    assert_eq!(d.process_rxq(&[msg.clone()], &mut b), Ok(()));
    assert_eq!(d.event_count(), 1);
    let mut bufs = vec![vec![0u8; 12], vec![0u8; 1], vec![0u8; 2]];
    assert_eq!(d.recv_into_bufs(&mut bufs), Ok(15));
    assert_eq!(bufs[0], msg[..12].to_vec());
    assert_eq!(bufs[1], vec![4]);
    assert_eq!(bufs[2], vec![5, 6]);
    assert_eq!(d.event_count(), 0);
}

#[test]
fn short_chain_stops_the_pump() {
    let mut d = started();
    let mut b = d.create_slave_request_endpoint().ok().unwrap();
    let good = message(1, 0, &[1]);
    let mut bad = header(1, 0, 4);
    bad.extend_from_slice(&[1, 2, 3]);
    assert_eq!(bad.len(), HEADER_LEN + 4 - 1);
    let after = message(2, 0, &[]);
    assert_eq!(d.process_rxq(&[good.clone(), bad, after], &mut b), Err(VvuError::FramingViolation));
    assert_eq!(d.event_count(), 1);
    assert_eq!(b.event_count(), 0);
    let mut bufs = vec![vec![0u8; 13]];
    assert_eq!(d.recv_into_bufs(&mut bufs), Ok(13));
    assert_eq!(bufs[0], good);
}

#[test]
fn chain_shorter_than_header_is_refused() {
    let mut front = VfioReceiver::new();
    let mut back = VfioReceiver::new();
    assert_eq!(process_rxq(&[vec![0u8; 11]], &mut front, &mut back), Err(VvuError::FramingViolation));
    let mut long = message(1, 0, &[1]);
    long.push(0);
    assert_eq!(process_rxq(&[long], &mut front, &mut back), Err(VvuError::FramingViolation));
    assert_eq!(front.event_count(), 0);
}

#[test]
fn replies_go_to_backend_in_order() {
    let mut d = started();
    let mut b = d.create_slave_request_endpoint().ok().unwrap();
    let reply = message(3, REPLY_FLAG | 1, &[1]);
    let request = message(4, 1, &[2, 2]);
    let reply2 = message(5, REPLY_FLAG, &[]);
    assert_eq!(d.process_rxq(&[reply.clone(), request.clone(), reply2.clone()], &mut b), Ok(()));
    assert_eq!(d.event_count(), 1);
    assert_eq!(b.event_count(), 2);
    let mut bufs = vec![vec![0u8; 14]];
    assert_eq!(d.recv_into_bufs(&mut bufs), Ok(14));
    assert_eq!(bufs[0], request);
    let mut bufs = vec![vec![0u8; 13], vec![0u8; 12]];
    assert_eq!(b.recv_into_bufs(&mut bufs), Ok(25));
    assert_eq!(bufs, vec![reply, reply2]);
}

#[test]
fn pump_before_start_fails() {
    let mut d = started();
    let mut b = d.create_slave_request_endpoint().ok().unwrap();
    let mut idle = VvuDevice::new(VvuPciDevice { num_queues: 2 });
    assert_eq!(idle.process_rxq(&[message(1, 0, &[])], &mut b), Err(VvuError::NotStarted));
    assert_eq!(b.event_count(), 0);
}
