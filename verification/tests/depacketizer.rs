use rtp_pipeline::depacketizer::{DepacketizerError, H264Depacketizer, MAX_NALU_SIZE};

fn start_code() -> Vec<u8> {
    vec![0, 0, 0, 1]
}

/// The fragment payloads of a NAL unit split after the header into the
/// given part sizes.
fn fragments(nal: &[u8], sizes: &[usize]) -> Vec<Vec<u8>> {
    let indicator = (nal[0] & 0xE0) | 28;
    let body = &nal[1..];
    let mut out = Vec::new();
    let mut at = 0;
    for (k, &n) in sizes.iter().enumerate() {
        let first = k == 0;
        let last = k == sizes.len() - 1;
        let mut fu = vec![
            indicator,
            (if first { 0x80 } else { 0 }) | (if last { 0x40 } else { 0 }) | (nal[0] & 0x1F),
        ];
        fu.extend_from_slice(&body[at..at + n]);
        at += n;
        out.push(fu);
    }
    assert_eq!(at, body.len());
    out
}

#[test]
fn single_nal_passes_through() {
    let mut d = H264Depacketizer::new(MAX_NALU_SIZE);
    let mut out = Vec::new();
    let nal = vec![0x65, 1, 2, 3, 4];
    assert!(d.push(&mut out, &nal).is_ok());
    let n = d.finish(&out);
    assert_eq!(n, 9);
    let mut expect = start_code();
    expect.extend_from_slice(&nal);
    assert_eq!(out, expect);
}

#[test]
fn fragment_round_trip_matches_single_push() {
    // A unit split into fragments A, B, C fed via push in order yields
    // the bytes of the unit fed as one push.
    let nal: Vec<u8> = {
        let mut v = vec![0x65u8];
        v.extend((0u8..60).map(|x| x.wrapping_mul(7)));
        v
    };
    let mut whole = Vec::new();
    let mut d1 = H264Depacketizer::new(MAX_NALU_SIZE);
    d1.push(&mut whole, &nal).unwrap();
    let n1 = d1.finish(&whole);

    let mut parts = Vec::new();
    let mut d2 = H264Depacketizer::new(MAX_NALU_SIZE);
    let frags = fragments(&nal, &[20, 25, 15]);
    assert_eq!(
        d2.push(&mut parts, &frags[0]),
        Err(DepacketizerError::NeedMoreInput)
    );
    assert_eq!(
        d2.push(&mut parts, &frags[1]),
        Err(DepacketizerError::NeedMoreInput)
    );
    assert_eq!(d2.push(&mut parts, &frags[2]), Ok(()));
    let n2 = d2.finish(&parts);

    assert_eq!(n1, n2);
    assert_eq!(whole, parts);
}

#[test]
fn aggregate_splits_into_units() {
    let a = vec![0x67u8, 9, 8];
    let b = vec![0x68u8, 7];
    let mut payload = vec![24u8];
    payload.extend_from_slice(&(a.len() as u16).to_be_bytes());
    payload.extend_from_slice(&a);
    payload.extend_from_slice(&(b.len() as u16).to_be_bytes());
    payload.extend_from_slice(&b);

    let mut d = H264Depacketizer::new(MAX_NALU_SIZE);
    let mut out = Vec::new();
    assert_eq!(d.push(&mut out, &payload), Ok(()));
    let mut expect = start_code();
    expect.extend_from_slice(&a);
    expect.extend(start_code());
    expect.extend_from_slice(&b);
    assert_eq!(out, expect);
}

#[test]
fn malformed_aggregate_is_rejected_untouched() {
    let mut payload = vec![24u8];
    payload.extend_from_slice(&[0, 9]);  // length 9, but only 2 bytes follow
    payload.extend_from_slice(&[1, 2]);
    let mut d = H264Depacketizer::new(MAX_NALU_SIZE);
    let mut out = vec![5u8];
    assert_eq!(
        d.push(&mut out, &payload),
        Err(DepacketizerError::MalformedAggregate)
    );
    assert_eq!(out, vec![5]);
}

#[test]
fn empty_payload_is_too_short() {
    let mut d = H264Depacketizer::new(MAX_NALU_SIZE);
    let mut out = Vec::new();
    assert_eq!(d.push(&mut out, &[]), Err(DepacketizerError::PayloadTooShort));
}

#[test]
fn truncated_fragment_is_too_short() {
    let mut d = H264Depacketizer::new(MAX_NALU_SIZE);
    let mut out = Vec::new();
    assert_eq!(d.push(&mut out, &[28]), Err(DepacketizerError::PayloadTooShort));
}

#[test]
fn start_after_start_is_rejected() {
    let nal = vec![0x65u8, 1, 2];
    let frags = fragments(&nal, &[1, 1]);
    let mut d = H264Depacketizer::new(MAX_NALU_SIZE);
    let mut out = Vec::new();
    assert_eq!(d.push(&mut out, &frags[0]), Err(DepacketizerError::NeedMoreInput));
    assert_eq!(
        d.push(&mut out, &frags[0]),
        Err(DepacketizerError::UnexpectedStartFragment)
    );
}

#[test]
fn end_without_start_is_rejected() {
    let mut d = H264Depacketizer::new(MAX_NALU_SIZE);
    let mut out = Vec::new();
    // FU-A with only the end flag, no unit open.
    assert_eq!(
        d.push(&mut out, &[0x7C, 0x45, 1, 2]),
        Err(DepacketizerError::MissingStartFragment)
    );
}

#[test]
fn single_nal_while_fragment_open_is_rejected() {
    let nal = vec![0x65u8, 1, 2];
    let frags = fragments(&nal, &[1, 1]);
    let mut d = H264Depacketizer::new(MAX_NALU_SIZE);
    let mut out = Vec::new();
    assert_eq!(d.push(&mut out, &frags[0]), Err(DepacketizerError::NeedMoreInput));
    assert_eq!(
        d.push(&mut out, &[0x41, 9]),
        Err(DepacketizerError::InterruptedFragment)
    );
}

#[test]
fn unsupported_nal_type_is_rejected() {
    let mut d = H264Depacketizer::new(MAX_NALU_SIZE);
    let mut out = Vec::new();
    // Type 25 (STAP-B) is not supported.
    assert_eq!(d.push(&mut out, &[25, 1, 2]), Err(DepacketizerError::UnsupportedNalType));
}

#[test]
fn overflow_is_a_hard_error() {
    let mut d = H264Depacketizer::new(16);
    let mut out = Vec::new();
    let nal = vec![0x65u8; 13];  // 4 + 13 > 16
    assert_eq!(d.push(&mut out, &nal), Err(DepacketizerError::OutputBufferFull));
    assert!(out.is_empty());
}

#[test]
fn finish_resets_open_fragment() {
    let nal = vec![0x65u8, 1, 2];
    let frags = fragments(&nal, &[1, 1]);
    let mut d = H264Depacketizer::new(MAX_NALU_SIZE);
    let mut out = Vec::new();
    assert_eq!(d.push(&mut out, &frags[0]), Err(DepacketizerError::NeedMoreInput));
    let _ = d.finish(&out);
    out.clear();
    // After the reset, a fresh start fragment is accepted again.
    assert_eq!(d.push(&mut out, &frags[0]), Err(DepacketizerError::NeedMoreInput));
    assert_eq!(d.push(&mut out, &frags[1]), Ok(()));
}
