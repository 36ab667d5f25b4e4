use std::collections::VecDeque;
use swanky::channel::{AdapterRead, BufferSizes, Channel, IoAdapter, ReadAction, WritePlan};

/// One end of a simulated connection: what it has sent, in order.
struct End {
    channel: Channel,
    sent: VecDeque<u8>,
}

impl End {
    fn new(sizes: BufferSizes) -> End {
        End { channel: Channel::with_sizes(sizes), sent: VecDeque::new() }
    }
}

fn perform(sent: &mut VecDeque<u8>, plan: WritePlan, bytes: &[u8]) {
    if let Some(v) = plan.flush_first {
        sent.extend(v);
    }
    if plan.write_direct {
        sent.extend(bytes.iter().copied());
    }
}

fn write_bytes(end: &mut End, bytes: &[u8]) {
    let plan = end.channel.write_bytes(bytes);
    perform(&mut end.sent, plan, bytes);
}

fn flush(end: &mut End) {
    if let Some(v) = end.channel.force_flush() {
        end.sent.extend(v);
    }
}

/// Read `wanted` bytes on `me` from what `peer` sent; `peer` flushes when
/// `me` would otherwise block.
fn read_bytes(me: &mut End, peer: &mut End, wanted: usize) -> Vec<u8> {
    let mut got = vec![];
    loop {
        match me.channel.read_bytes(&mut got, wanted) {
            ReadAction::Done => return got,
            ReadAction::Flush(v) => me.sent.extend(v),
            ReadAction::ReadExact(n) => {
                if peer.sent.len() < n {
                    flush(peer);
                }
                for _ in 0..n {
                    got.push(peer.sent.pop_front().expect("end of file"));
                }
                return got;
            }
            ReadAction::Fill => {
                if peer.sent.is_empty() {
                    flush(peer);
                }
                // A read returns at most what the buffer holds, here in
                // pieces of at most 3 bytes.
                let n = me.channel.read_capacity().min(peer.sent.len()).min(3);
                let data: Vec<u8> = peer.sent.drain(..n).collect();
                assert!(!data.is_empty(), "end of file");
                me.channel.fill_read_buffer(&data);
            }
        }
    }
}

#[test]
fn channel_delivers_bytes_in_order() {
    let sizes = || BufferSizes { read: 2, write: 2 };
    let mut a = End::new(sizes());
    let mut b = End::new(sizes());
    // A small deterministic mix of message sizes and senders.
    let mut state: u32 = 12345;
    for round in 0..300u32 {
        state = state.wrapping_mul(1_103_515_245).wrapping_add(12345);
        let len = (state >> 16) as usize % 9;
        let msg: Vec<u8> = (0..len).map(|i| (round as u8).wrapping_add(i as u8)).collect();
        if (state >> 8) & 1 == 0 {
            write_bytes(&mut a, &msg);
            assert_eq!(read_bytes(&mut b, &mut a, len), msg);
        } else {
            write_bytes(&mut b, &msg);
            assert_eq!(read_bytes(&mut a, &mut b, len), msg);
        }
    }
}

#[test]
fn small_writes_are_buffered_and_large_ones_go_direct() {
    let mut c = Channel::with_sizes(BufferSizes { read: 4, write: 4 });
    let p = c.write_bytes(&[1, 2]);
    assert!(p.flush_first.is_none() && !p.write_direct);
    let p = c.write_bytes(&[3, 4, 5]);
    assert_eq!(p.flush_first, Some(vec![1, 2]));
    assert!(!p.write_direct);
    let p = c.write_bytes(&[6, 7, 8, 9, 10]);
    assert_eq!(p.flush_first, Some(vec![3, 4, 5]));
    assert!(p.write_direct);
    assert_eq!(c.force_flush(), None);
}

#[test]
fn large_reads_bypass_the_buffer() {
    let mut c = Channel::with_sizes(BufferSizes { read: 2, write: 2 });
    let mut got = vec![];
    match c.read_bytes(&mut got, 10) {
        ReadAction::ReadExact(n) => assert_eq!(n, 10),
        _ => panic!("expected a direct read"),
    }
    let mut got = vec![];
    match c.read_bytes(&mut got, 2) {
        ReadAction::Fill => {}
        _ => panic!("expected a refill"),
    }
    c.fill_read_buffer(&[5, 6]);
    assert_eq!(c.buffered_read_len(), 2);
    match c.read_bytes(&mut got, 2) {
        ReadAction::Done => assert_eq!(got, vec![5, 6]),
        _ => panic!("expected the read to complete"),
    }
}

#[test]
fn default_buffer_sizes() {
    let s = BufferSizes::default();
    assert_eq!(s.read, 262144);
    assert_eq!(s.write, 16367);
    let c = Channel::with_default_sizes();
    assert_eq!(c.read_capacity(), 262144);
}

/// Read up to `max` bytes through the adapter from what `peer` sent; an
/// empty `Vec` is end of file.
fn adapter_read(me: &mut IoAdapter, my_sent: &mut VecDeque<u8>, peer: &mut VecDeque<u8>, max: usize) -> Vec<u8> {
    loop {
        match me.read(max) {
            AdapterRead::Flush(v) => my_sent.extend(v),
            AdapterRead::Data(v) => return v,
            AdapterRead::Fill => {
                let n = me.inner.read_capacity().min(peer.len());
                let data: Vec<u8> = peer.drain(..n).collect();
                if data.is_empty() {
                    return data;
                }
                me.inner.fill_read_buffer(&data);
            }
        }
    }
}

#[test]
fn io_adapter_write() {
    let x: u32 = 0x8BADF00D;
    let y: u32 = 0xDEADBEEF;
    let mut b = Channel::with_default_sizes().as_std_io();
    let mut sent = VecDeque::new();
    let plan = b.write(x.to_le_bytes().as_slice());
    perform(&mut sent, plan, &x.to_le_bytes());
    let plan = b.write(y.to_le_bytes().as_slice());
    perform(&mut sent, plan, &y.to_le_bytes());
    if let Some(v) = b.flush() {
        sent.extend(v);
    }
    let mut a = End::new(BufferSizes::default());
    let mut peer = End { channel: b.into_channel(), sent };
    let rx = read_bytes(&mut a, &mut peer, 4);
    let ry = read_bytes(&mut a, &mut peer, 4);
    let a_vals = (
        u32::from_le_bytes(rx.try_into().unwrap()),
        u32::from_le_bytes(ry.try_into().unwrap()),
    );
    assert_eq!(a_vals, (x, y));
}

#[test]
fn io_adapter_read_eof() {
    let x: u32 = 0x8BADF00D;
    let mut b = End::new(BufferSizes::default());
    write_bytes(&mut b, &x.to_le_bytes());
    flush(&mut b);
    let mut a = End::new(BufferSizes::default());
    let got = read_bytes(&mut a, &mut b, 4);
    assert_eq!(u32::from_le_bytes(got.try_into().unwrap()), x);
    let mut adapter = a.channel.as_std_io();
    let mut my_sent = VecDeque::new();
    assert_eq!(adapter_read(&mut adapter, &mut my_sent, &mut b.sent, 1).len(), 0);
}

#[test]
fn io_adapter_read() {
    let msg: Vec<u8> = (0..=u8::MAX).collect();
    let mut peer: VecDeque<u8> = msg.iter().copied().collect();
    let mut a = Channel::with_sizes(BufferSizes { read: 2, write: 16 }).as_std_io();
    let mut my_sent = VecDeque::new();
    let mut buf: Vec<u8> = vec![];
    // read_exact of 1, 2 and 5 bytes, then read to the end.
    for want in [1usize, 2, 5] {
        let mut part = vec![];
        while part.len() < want {
            let got = adapter_read(&mut a, &mut my_sent, &mut peer, want - part.len());
            assert!(!got.is_empty());
            part.extend(got);
        }
        buf.extend(part);
    }
    loop {
        let got = adapter_read(&mut a, &mut my_sent, &mut peer, 64);
        if got.is_empty() {
            break;
        }
        buf.extend(got);
    }
    assert_eq!(buf, msg);
}

#[test]
fn reads_flush_pending_writes_first() {
    let mut c = Channel::with_sizes(BufferSizes { read: 8, write: 8 });
    let _ = c.write_bytes(&[1, 2, 3]);
    let mut got = vec![];
    match c.read_bytes(&mut got, 1) {
        ReadAction::Flush(v) => assert_eq!(v, vec![1, 2, 3]),
        _ => panic!("expected a flush"),
    }
    let mut a = c.as_std_io();
    let _ = a.write(&[4]);
    match a.read(1) {
        AdapterRead::Flush(v) => assert_eq!(v, vec![4]),
        _ => panic!("expected a flush"),
    }
    match a.read(1) {
        AdapterRead::Fill => {}
        _ => panic!("expected a refill"),
    }
}
