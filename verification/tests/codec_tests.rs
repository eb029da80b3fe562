use pir_wire::codec::{frame_message, u64_from_le_at, u64_to_le_vec, FrameDecoder, FrameEnd};

fn decode_whole(bytes: &[u8]) -> Vec<u8> {
    let mut d = FrameDecoder::new();
    let n = d.feed(bytes);
    assert_eq!(n, bytes.len());
    assert!(d.is_complete());
    d.into_message()
}

#[test]
fn frame_header_exact_bytes() {
    let framed = frame_message(b"abc");
    assert_eq!(framed, vec![3, 0, 0, 0, 0, 0, 0, 0, 97, 98, 99]);
}

#[test]
fn u64_le_round_trip_exact() {
    let v = u64_to_le_vec(0x0123_4567_89ab_cdef);
    assert_eq!(v, vec![0xef, 0xcd, 0xab, 0x89, 0x67, 0x45, 0x23, 0x01]);
    assert_eq!(u64_from_le_at(&v, 0), 0x0123_4567_89ab_cdef);
}

#[test]
fn round_trip_whole() {
    let payload = vec![1u8, 2, 3, 250, 0, 77];
    let framed = frame_message(&payload);
    assert_eq!(decode_whole(&framed), payload);
}

#[test]
fn round_trip_empty_payload() {
    let framed = frame_message(b"");
    assert_eq!(framed.len(), 8);
    assert_eq!(decode_whole(&framed), Vec::<u8>::new());
}

#[test]
fn round_trip_one_byte_chunks() {
    let payload = b"partial-read resilience".to_vec();
    let framed = frame_message(&payload);
    let mut d = FrameDecoder::new();
    for b in &framed {
        assert!(!d.is_complete());
        let n = d.feed(std::slice::from_ref(b));
        assert_eq!(n, 1);
    }
    assert!(d.is_complete());
    assert_eq!(d.into_message(), payload);
}

#[test]
fn round_trip_uneven_chunks() {
    let payload = vec![9u8; 100];
    let framed = frame_message(&payload);
    let mut d = FrameDecoder::new();
    let mut pos = 0;
    for size in [3usize, 5, 1, 20, 64, 15, 200] {
        let end = (pos + size).min(framed.len());
        let n = d.feed(&framed[pos..end]);
        assert_eq!(n, end - pos);
        pos = end;
    }
    assert!(d.is_complete());
    assert_eq!(d.into_message(), payload);
}

#[test]
fn feed_stops_at_frame_boundary() {
    let framed = frame_message(b"one");
    let mut stream = framed.clone();
    stream.extend_from_slice(b"extra bytes of the next message");
    let mut d = FrameDecoder::new();
    let n = d.feed(&stream);
    assert_eq!(n, framed.len());
    assert!(d.is_complete());
    assert_eq!(d.into_message(), b"one".to_vec());
}

#[test]
fn truncated_payload_is_reported() {
    let framed = frame_message(&[1u8, 2, 3, 4]);
    let mut d = FrameDecoder::new();
    d.feed(&framed[..10]);
    assert!(!d.is_complete());
    assert!(matches!(d.close(), FrameEnd::Truncated));
}

#[test]
fn truncated_header_is_reported() {
    let framed = frame_message(b"xyz");
    let mut d = FrameDecoder::new();
    d.feed(&framed[..3]);
    assert!(!d.is_complete());
    assert!(matches!(d.close(), FrameEnd::Truncated));
}

#[test]
fn close_before_any_byte_is_clean() {
    let d = FrameDecoder::new();
    assert!(matches!(d.close(), FrameEnd::CleanClose));
}

#[test]
fn close_on_complete_message_yields_it() {
    let framed = frame_message(b"done");
    let mut d = FrameDecoder::new();
    d.feed(&framed);
    match d.close() {
        FrameEnd::Message(m) => assert_eq!(m, b"done".to_vec()),
        _ => panic!("expected the complete message"),
    }
}
