use ublox::{
    AckAck, AckNak, FixedBuffer, GrowableBuffer, MemWriter, Overflow, Packet, Parser, ParserError,
    UbxChecksumCalc, UbxPacketCreator, UbxPacketMeta, UbxPacketRequest, UbxBuffer,
};

const SYNC1: u8 = 0xb5;
const SYNC2: u8 = 0x62;

fn checksum(bytes: &[u8]) -> (u8, u8) {
    let mut a: u8 = 0;
    let mut b: u8 = 0;
    for &x in bytes {
        a = a.wrapping_add(x);
        b = b.wrapping_add(a);
    }
    (a, b)
}

fn frame(class: u8, msg_id: u8, payload: &[u8]) -> Vec<u8> {
    let mut body = vec![
        class,
        msg_id,
        (payload.len() % 256) as u8,
        (payload.len() / 256) as u8,
    ];
    body.extend_from_slice(payload);
    let (a, b) = checksum(&body);
    let mut out = vec![SYNC1, SYNC2];
    out.extend_from_slice(&body);
    out.push(a);
    out.push(b);
    out
}

type Outcome = Result<Packet, ParserError>;

fn parse_all_growable(stream: &[u8], chunk: usize) -> Vec<Outcome> {
    let mut parser = Parser::new(GrowableBuffer::new());
    let mut out = Vec::new();
    for piece in stream.chunks(chunk.max(1)) {
        out.extend(parser.consume(piece).expect("growable buffer never overflows"));
    }
    out
}

fn parse_all_fixed(stream: &[u8], chunk: usize, cap: usize) -> Vec<Outcome> {
    let mut parser = Parser::new(FixedBuffer::with_capacity(cap));
    let mut out = Vec::new();
    for piece in stream.chunks(chunk.max(1)) {
        out.extend(parser.consume(piece).expect("stream must fit the fixed capacity"));
    }
    out
}

#[test]
fn checksum_fixture() {
    let mut calc = UbxChecksumCalc::new();
    calc.update(&[0x01, 0x02, 0x00, 0x00]);
    assert_eq!(calc.result_pair(), (0x03, 0x0a));
    assert_eq!(calc.result(), 0x0a03);
    assert_eq!(calc.result().to_le_bytes(), [0x03, 0x0a]);
}

#[test]
fn checksum_reset_and_bytewise() {
    let mut calc = UbxChecksumCalc::new();
    calc.update(&[0xff, 0xff, 0xff]);
    calc.reset();
    assert_eq!(calc.result_pair(), (0, 0));
    calc.update_byte(0x01);
    calc.update_byte(0x02);
    let mut whole = UbxChecksumCalc::new();
    whole.update(&[0x01, 0x02]);
    assert_eq!(calc.result_pair(), whole.result_pair());
}

#[test]
fn poll_request_bytes_fixture() {
    let bytes = UbxPacketRequest::request_for_unknown(0x01, 0x02).into_packet_bytes();
    assert_eq!(bytes.len(), UbxPacketRequest::PACKET_LEN);
    assert_eq!(bytes, [SYNC1, SYNC2, 0x01, 0x02, 0x00, 0x00, 0x03, 0x0a]);
}

#[test]
fn poll_request_for_known_meta() {
    let bytes = UbxPacketRequest::request_for::<AckAck>().into_packet_bytes();
    assert_eq!(bytes, [SYNC1, SYNC2, 0x05, 0x01, 0x00, 0x00, 0x06, 0x17]);
    let nak = UbxPacketRequest::request_for::<AckNak>().into_packet_bytes();
    assert_eq!(&nak[2..4], &[0x05, 0x00]);
}

#[test]
fn poll_round_trip_unknown_type() {
    let bytes = UbxPacketRequest::request_for_unknown(0x0a, 0x04).into_packet_bytes();
    let mut parser = Parser::new(GrowableBuffer::new());
    let out = parser.consume(&bytes).unwrap();
    assert_eq!(out.len(), 1);
    match &out[0] {
        Ok(Packet::Unknown(u)) => {
            assert_eq!(u.class, 0x0a);
            assert_eq!(u.msg_id, 0x04);
            assert!(u.payload.is_empty());
        },
        other => panic!("expected an unknown message, got {:?}", other),
    }
}

#[test]
fn poll_round_trip_known_fixed_len_is_rejected() {
    // A poll for a type whose catalog entry demands a 2-byte payload cannot
    // round-trip: the empty decoded payload disagrees with the catalog.
    let bytes = UbxPacketRequest::request_for::<AckAck>().into_packet_bytes();
    let mut parser = Parser::new(GrowableBuffer::new());
    let out = parser.consume(&bytes).unwrap();
    assert_eq!(out, vec![Err(ParserError::InvalidLength)]);
}

#[test]
fn dispatch_ack_and_nak() {
    let mut stream = frame(5, 1, &[0x06, 0x01]);
    stream.extend_from_slice(&frame(5, 0, &[0x06, 0x3e]));
    let out = parse_all_growable(&stream, 4096);
    assert_eq!(
        out,
        vec![
            Ok(Packet::AckAck(AckAck { acked_class: 0x06, acked_id: 0x01 })),
            Ok(Packet::AckNak(AckNak { nacked_class: 0x06, nacked_id: 0x3e })),
        ]
    );
}

#[test]
fn dispatch_unknown_keeps_raw_payload() {
    let out = parse_all_growable(&frame(0x42, 0x07, &[1, 2, 3]), 4096);
    assert_eq!(out.len(), 1);
    match &out[0] {
        Ok(Packet::Unknown(u)) => {
            assert_eq!((u.class, u.msg_id), (0x42, 0x07));
            assert_eq!(u.payload, vec![1, 2, 3]);
        },
        other => panic!("expected an unknown message, got {:?}", other),
    }
}

#[test]
fn known_type_with_short_payload_is_invalid_length() {
    // One byte passes header validation (1 <= 2) but fails dispatch.
    let out = parse_all_growable(&frame(5, 1, &[0x09]), 4096);
    assert_eq!(out, vec![Err(ParserError::InvalidLength)]);
}

#[test]
fn oversize_length_field_aborts_before_payload() {
    // Length 2000 exceeds the protocol-wide ceiling; the error comes from
    // the header alone, with no payload bytes ever buffered.
    let header = [SYNC1, SYNC2, 0x11, 0x22, (2000 % 256) as u8, (2000 / 256) as u8];
    let mut parser = Parser::new(GrowableBuffer::new());
    let out = parser.consume(&header).unwrap();
    assert_eq!(out, vec![Err(ParserError::InvalidLength)]);
    // A valid frame right after is still decoded.
    let out = parser.consume(&frame(5, 1, &[1, 2])).unwrap();
    assert_eq!(out.len(), 1);
    assert!(out[0].is_ok());
}

#[test]
fn known_type_over_catalog_bound_aborts_at_header() {
    // Three bytes for a type whose bound is two: rejected from the header,
    // before the payload arrives.
    let bytes = frame(5, 1, &[1, 2, 3]);
    let out = parse_all_growable(&bytes[..6], 4096);
    assert_eq!(out, vec![Err(ParserError::InvalidLength)]);
}

#[test]
fn corrupted_payload_byte_is_invalid_checksum() {
    let mut bytes = frame(0x01, 0x02, &[0x10, 0x20, 0x30, 0x40]);
    bytes[8] ^= 0x04; // flip one bit of the third payload byte
    let out = parse_all_growable(&bytes, 4096);
    assert_eq!(out.len(), 1);
    match &out[0] {
        Err(ParserError::InvalidChecksum { class, msg_id, payload }) => {
            assert_eq!((*class, *msg_id), (0x01, 0x02));
            assert_eq!(payload, &vec![0x10, 0x20, 0x34, 0x40]);
        },
        other => panic!("expected a checksum error, got {:?}", other),
    }
}

#[test]
fn resynchronization_after_noise() {
    let mut stream: Vec<u8> = (0u8..80).filter(|b| *b != SYNC1).collect();
    stream.extend_from_slice(&frame(5, 1, &[1, 2]));
    stream.extend_from_slice(&frame(0x0a, 0x09, &[7; 10]));
    for chunk in [1usize, 3, 17, 1024] {
        let out = parse_all_growable(&stream, chunk);
        assert_eq!(out.len(), 2, "noise must cost no frame at chunk size {}", chunk);
        assert!(out.iter().all(|r| r.is_ok()));
    }
}

#[test]
fn false_sync_byte_makes_progress() {
    // A stray first marker followed by a real frame: the real frame's own
    // marker pair is found one byte later.
    let mut stream = vec![SYNC1];
    stream.extend_from_slice(&frame(5, 0, &[9, 9]));
    let out = parse_all_growable(&stream, 1);
    assert_eq!(out.len(), 1);
    assert!(out[0].is_ok());
}

#[test]
fn chunk_size_invariance_both_backings() {
    let mut stream: Vec<u8> = vec![0x00, 0x7f, SYNC1, 0x00, 0x13];
    stream.extend_from_slice(&frame(5, 1, &[1, 2]));
    stream.extend_from_slice(&frame(0x21, 0x08, &[3; 33]));
    stream.extend_from_slice(&frame(5, 1, &[4])); // dispatch-level length error
    let mut corrupt = frame(0x02, 0x15, &[5; 7]);
    corrupt[10] ^= 0xff;
    stream.extend_from_slice(&corrupt);
    stream.extend_from_slice(&frame(0x0b, 0x50, &[8, 6, 4]));
    stream.extend_from_slice(&[SYNC1, SYNC2, 0x01]); // trailing partial frame
    let reference = parse_all_growable(&stream, stream.len());
    assert_eq!(reference.len(), 5);
    for chunk in [1usize, 2, 3, 5, 7, 8, 13, 64, 1000] {
        assert_eq!(parse_all_growable(&stream, chunk), reference);
        assert_eq!(parse_all_fixed(&stream, chunk, 256), reference);
    }
}

#[test]
fn fixture_capture_all_chunk_sizes() {
    // A synthetic capture of receiver output: a long run of valid frames of
    // varied types and sizes, decoded identically at every chunk size and
    // through either backing, with zero errors.
    let mut stream = Vec::new();
    let mut expected = 0usize;
    for i in 0..120u32 {
        let payload: Vec<u8> = (0..(i % 40)).map(|j| (i + j) as u8).collect();
        let class = if i % 5 == 0 { 0x01 } else { 0x0a + (i % 3) as u8 };
        stream.extend_from_slice(&frame(class, (i % 7) as u8, &payload));
        expected += 1;
        if i % 4 == 0 {
            stream.extend_from_slice(&frame(5, 1, &[i as u8, (i / 2) as u8]));
            expected += 1;
        }
    }
    let reference = parse_all_growable(&stream, stream.len());
    assert_eq!(reference.len(), expected);
    assert!(reference.iter().all(|r| r.is_ok()));
    for chunk in [99usize, 100, 101, 256, 512, 1000, 1024] {
        assert_eq!(parse_all_growable(&stream, chunk), reference);
        assert_eq!(parse_all_fixed(&stream, chunk, 2048), reference);
    }
}

#[test]
fn fixed_overflow_containment() {
    // An oversize frame is refused whole; a small valid frame right after
    // decodes untouched.
    let mut parser = Parser::new(FixedBuffer::with_capacity(16));
    let big = frame(0x30, 0x31, &[0xaa; 20]);
    assert_eq!(parser.consume(&big), Err(Overflow));
    let out = parser.consume(&frame(5, 1, &[1, 2])).unwrap();
    assert_eq!(out, vec![Ok(Packet::AckAck(AckAck { acked_class: 1, acked_id: 2 }))]);
}

#[test]
fn fixed_overflow_mid_frame_then_discard() {
    let mut parser = Parser::new(FixedBuffer::with_capacity(16));
    let big = frame(0x30, 0x31, &[0xaa; 20]);
    assert!(parser.consume(&big[..10]).unwrap().is_empty()); // partial frame parks
    assert_eq!(parser.consume(&big[10..]), Err(Overflow)); // the rest can never fit
    parser.discard_buffered(); // caller chooses to resynchronize
    let out = parser.consume(&frame(0x0a, 0x04, &[])).unwrap();
    assert_eq!(out.len(), 1);
    assert!(out[0].is_ok());
}

#[test]
fn buffer_capability_surface() {
    let mut g = GrowableBuffer::new();
    assert_eq!(g.len(), 0);
    g.extend(&[1, 2, 0xb5, 4]).unwrap();
    assert_eq!(g.len(), 4);
    assert_eq!(g.as_slice(), &[1, 2, 0xb5, 4]);
    assert_eq!(g.byte_at(2), 0xb5);
    assert_eq!(g.find(0xb5, 0), Some(2));
    assert_eq!(g.find(0xb5, 3), None);
    g.drain_front(2);
    assert_eq!(g.as_slice(), &[0xb5, 4]);

    let mut f = FixedBuffer::with_capacity(4);
    assert_eq!(f.capacity(), 4);
    f.extend(&[9, 8]).unwrap();
    assert_eq!(f.extend(&[7, 6]), Ok(())); // exactly to capacity
    assert_eq!(f.extend(&[5]), Err(Overflow)); // one byte over
    assert_eq!(f.as_slice(), &[9, 8, 7, 6]); // refused whole, nothing lost
    f.drain_front(3);
    assert_eq!(f.as_slice(), &[6]);
    assert_eq!(f.find(6, 0), Some(0));
}

#[test]
fn packet_meta_surface() {
    assert_eq!(<AckAck as UbxPacketMeta>::class(), 5);
    assert_eq!(<AckAck as UbxPacketMeta>::id(), 1);
    assert_eq!(<AckAck as UbxPacketMeta>::fixed_payload_len(), Some(2));
    assert_eq!(<AckAck as UbxPacketMeta>::max_payload_len(), 2);
    assert_eq!(<AckNak as UbxPacketMeta>::id(), 0);
}

#[test]
fn create_packet_through_memwriter() {
    let request = UbxPacketRequest::request_for_unknown(0x06, 0x24);
    let bytes = request.clone().into_packet_bytes();
    let mut sink: Vec<u8> = vec![0xee]; // pre-existing contents stay put
    request.create_packet(&mut sink).unwrap();
    assert_eq!(sink[0], 0xee);
    assert_eq!(&sink[1..], &bytes);
}
