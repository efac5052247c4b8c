use rtp_pipeline::reorder::{InsertOutcome, RecvStep, ReorderBuffer, ReorderBufferError};
use rtp_pipeline::rtp::parse_rtp;

/// A minimal RTP datagram: version 2, no padding, no extension, no
/// contributing sources.
fn datagram(seq: u16, timestamp: u32, payload: &[u8]) -> Vec<u8> {
    let mut d = vec![0x80u8, 96u8];
    d.extend_from_slice(&seq.to_be_bytes());
    d.extend_from_slice(&timestamp.to_be_bytes());
    d.extend_from_slice(&0x1234_5678u32.to_be_bytes());
    d.extend_from_slice(payload);
    d
}

fn drain(buf: &mut ReorderBuffer) -> Vec<(u16, Vec<u8>)> {
    let mut out = Vec::new();
    while let Some(p) = buf.pop_ready() {
        out.push((p.seq, p.payload));
    }
    out
}

#[test]
fn parse_rtp_strips_header() {
    let d = datagram(7, 99, &[1, 2, 3]);
    let p = parse_rtp(&d).unwrap();
    assert_eq!(p.seq, 7);
    assert_eq!(p.timestamp, 99);
    assert_eq!(p.payload, vec![1, 2, 3]);
}

#[test]
fn parse_rtp_rejects_bad_version() {
    let mut d = datagram(7, 99, &[1]);
    d[0] = 0x40;
    assert!(parse_rtp(&d).is_err());
}

#[test]
fn parse_rtp_rejects_short_datagram() {
    assert!(parse_rtp(&[0x80, 96, 0, 1]).is_err());
}

#[test]
fn parse_rtp_strips_padding() {
    let mut d = datagram(3, 5, &[9, 9, 2]);
    d[0] = 0x80 | 0x20;
    let p = parse_rtp(&d).unwrap();
    assert_eq!(p.payload, vec![9]);
}

#[test]
fn parse_rtp_strips_extension() {
    let mut d = vec![0x80u8 | 0x10, 96u8];
    d.extend_from_slice(&9u16.to_be_bytes());
    d.extend_from_slice(&1u32.to_be_bytes());
    d.extend_from_slice(&2u32.to_be_bytes());
    // extension header: profile tag, one word of extension data
    d.extend_from_slice(&[0xBE, 0xDE, 0x00, 0x01]);
    d.extend_from_slice(&[0, 0, 0, 0]);
    d.extend_from_slice(&[42, 43]);
    let p = parse_rtp(&d).unwrap();
    assert_eq!(p.seq, 9);
    assert_eq!(p.payload, vec![42, 43]);
}

#[test]
fn in_order_stream_passes_through() {
    // In-order delivery with no gaps: same order, no omissions.
    let mut buf = ReorderBuffer::new(128);
    let mut seen = Vec::new();
    for seq in 100u16..110 {
        let d = datagram(seq, seq as u32, &[seq as u8]);
        assert!(matches!(buf.accept_datagram(&d), Ok(InsertOutcome::Stored)));
        seen.extend(drain(&mut buf));
    }
    let expect: Vec<(u16, Vec<u8>)> = (100u16..110).map(|s| (s, vec![s as u8])).collect();
    assert_eq!(seen, expect);
}

#[test]
fn permutations_yield_ascending_order() {
    // Any arrival order within the window comes out in ascending
    // sequence order.
    let orders: [[u16; 5]; 4] = [
        [100, 101, 102, 103, 104],
        [104, 103, 102, 101, 100],
        [102, 100, 104, 101, 103],
        [101, 104, 100, 103, 102],
    ];
    for order in orders {
        let mut buf = ReorderBuffer::new(128);
        // Anchor the window so that 100 is the next expected number.
        let d = datagram(99, 0, &[99]);
        buf.accept_datagram(&d).unwrap();
        assert_eq!(buf.pop_ready().unwrap().seq, 99);
        for seq in order {
            let d = datagram(seq, 0, &[seq as u8]);
            buf.accept_datagram(&d).unwrap();
        }
        let out = drain(&mut buf);
        let seqs: Vec<u16> = out.iter().map(|p| p.0).collect();
        assert_eq!(seqs, vec![100, 101, 102, 103, 104]);
    }
}

#[test]
fn first_packet_anchors_the_window() {
    // Without an anchor, the first packet received fixes the cursor;
    // later packets behind it are stale.
    let mut buf = ReorderBuffer::new(128);
    buf.accept_datagram(&datagram(103, 0, &[3])).unwrap();
    assert!(matches!(
        buf.accept_datagram(&datagram(101, 0, &[1])),
        Ok(InsertOutcome::Stale)
    ));
    let out = drain(&mut buf);
    assert_eq!(out.len(), 1);
    assert_eq!(out[0].0, 103);
}

#[test]
fn duplicate_is_replaced_and_delivered_once() {
    let mut buf = ReorderBuffer::new(128);
    buf.accept_datagram(&datagram(50, 0, &[1])).unwrap();
    assert_eq!(buf.pop_ready().unwrap().payload, vec![1]);
    buf.accept_datagram(&datagram(51, 0, &[2])).unwrap();
    assert!(matches!(
        buf.accept_datagram(&datagram(51, 0, &[3])),
        Ok(InsertOutcome::Replaced)
    ));
    let out = drain(&mut buf);
    assert_eq!(out, vec![(51, vec![3])]);
}

#[test]
fn wraparound_order_is_kept() {
    let mut buf = ReorderBuffer::new(128);
    for seq in [65534u16, 65535, 0, 1] {
        buf.accept_datagram(&datagram(seq, 0, &[1])).unwrap();
    }
    let out = drain(&mut buf);
    let seqs: Vec<u16> = out.iter().map(|p| p.0).collect();
    assert_eq!(seqs, vec![65534, 65535, 0, 1]);
}

#[test]
fn full_window_reported_once_per_gap() {
    // A gap that outlives the window capacity is reported exactly once,
    // and delivery resumes at the packet past the gap.
    let mut buf = ReorderBuffer::new(4);
    buf.accept_datagram(&datagram(100, 0, &[0])).unwrap();
    assert_eq!(buf.pop_ready().unwrap().seq, 100);
    // 101 never arrives; the following packets fill the window.
    for seq in [102u16, 103, 104, 105] {
        assert!(matches!(buf.accept_datagram(&datagram(seq, 0, &[1])), Ok(InsertOutcome::Stored)));
    }
    assert!(matches!(buf.step(), RecvStep::Full));
    // Exactly once: the very next attempts deliver everything buffered.
    let mut seqs = Vec::new();
    loop {
        match buf.step() {
            RecvStep::Deliver(p) => seqs.push(p.seq),
            RecvStep::NeedRead => break,
            RecvStep::Full => panic!("full reported twice for one gap"),
        }
    }
    assert_eq!(seqs, vec![102, 103, 104, 105]);
}

#[test]
fn window_exhausted_refuses_new_packet() {
    let mut buf = ReorderBuffer::new(2);
    buf.accept_datagram(&datagram(10, 0, &[0])).unwrap();
    assert_eq!(buf.pop_ready().unwrap().seq, 10);
    buf.accept_datagram(&datagram(12, 0, &[0])).unwrap();
    buf.accept_datagram(&datagram(13, 0, &[0])).unwrap();
    assert!(matches!(
        buf.accept_datagram(&datagram(14, 0, &[0])),
        Ok(InsertOutcome::WindowExhausted)
    ));
}

#[test]
fn header_parse_failure_is_reported() {
    let mut buf = ReorderBuffer::new(8);
    let r = buf.accept_datagram(&[0x00, 1, 2]);
    assert_eq!(r, Err(ReorderBufferError::HeaderParsingError));
}
