use pir_wire::bundle::{decode_setup_params, encode_setup_params, ClientSetupParams, SEED_BYTE_LEN};
use pir_wire::session::{classify_input, setup_request_frame, InputCmd};

fn sample_params() -> ClientSetupParams {
    let mut seed = Vec::new();
    for i in 0..SEED_BYTE_LEN {
        seed.push(i as u8);
    }
    ClientSetupParams { seed, hint: vec![10u8, 20, 30], filter: vec![0u8, 255, 0, 1] }
}

#[test]
fn bundle_encoding_round_trips() {
    let p = sample_params();
    let encoded = encode_setup_params(&p);
    let decoded = decode_setup_params(&encoded).expect("a well-formed bundle must decode");
    assert_eq!(decoded.seed, p.seed);
    assert_eq!(decoded.hint, p.hint);
    assert_eq!(decoded.filter, p.filter);
}

#[test]
fn bundle_encoding_round_trips_with_empty_blobs() {
    let p = ClientSetupParams { seed: vec![7u8; SEED_BYTE_LEN], hint: vec![], filter: vec![] };
    let encoded = encode_setup_params(&p);
    assert_eq!(encoded.len(), 24 + SEED_BYTE_LEN);
    let decoded = decode_setup_params(&encoded).expect("a well-formed bundle must decode");
    assert_eq!(decoded.seed, p.seed);
    assert!(decoded.hint.is_empty());
    assert!(decoded.filter.is_empty());
}

#[test]
fn bundle_layout_exact() {
    let p = sample_params();
    let encoded = encode_setup_params(&p);
    // Seed field: length word 32, then the seed bytes.
    assert_eq!(&encoded[..8], &[32, 0, 0, 0, 0, 0, 0, 0]);
    assert_eq!(&encoded[8..40], p.seed.as_slice());
    // Hint field.
    assert_eq!(&encoded[40..48], &[3, 0, 0, 0, 0, 0, 0, 0]);
    assert_eq!(&encoded[48..51], p.hint.as_slice());
    // Filter field, and nothing after it.
    assert_eq!(&encoded[51..59], &[4, 0, 0, 0, 0, 0, 0, 0]);
    assert_eq!(&encoded[59..], p.filter.as_slice());
}

#[test]
fn truncated_bundle_is_rejected() {
    let encoded = encode_setup_params(&sample_params());
    assert!(decode_setup_params(&encoded[..encoded.len() - 1]).is_none());
    assert!(decode_setup_params(&encoded[..5]).is_none());
    assert!(decode_setup_params(b"").is_none());
}

#[test]
fn trailing_garbage_is_rejected() {
    let mut encoded = encode_setup_params(&sample_params());
    encoded.push(0);
    assert!(decode_setup_params(&encoded).is_none());
}

#[test]
fn wrong_seed_length_is_rejected() {
    let p = ClientSetupParams { seed: vec![1u8; SEED_BYTE_LEN - 1], hint: vec![2], filter: vec![3] };
    let encoded = encode_setup_params(&p);
    assert!(decode_setup_params(&encoded).is_none());
}

#[test]
fn setup_request_frame_exact() {
    let framed = setup_request_frame();
    assert_eq!(framed, vec![5, 0, 0, 0, 0, 0, 0, 0, 115, 101, 116, 117, 112]);
}

#[test]
fn quit_token_ends_session() {
    assert!(matches!(classify_input(b"quit\n"), InputCmd::Quit));
    assert!(matches!(classify_input(b"QUIT\r\n"), InputCmd::Quit));
    assert!(matches!(classify_input(b"Quit"), InputCmd::Quit));
}

#[test]
fn other_lines_are_keywords() {
    match classify_input(b"alice\n") {
        InputCmd::Keyword(k) => assert_eq!(k, b"alice".to_vec()),
        InputCmd::Quit => panic!("a keyword line must not end the session"),
    }
    match classify_input(b"quitter\n") {
        InputCmd::Keyword(k) => assert_eq!(k, b"quitter".to_vec()),
        InputCmd::Quit => panic!("a keyword line must not end the session"),
    }
    match classify_input(b"  \n") {
        InputCmd::Keyword(k) => assert_eq!(k, Vec::<u8>::new()),
        InputCmd::Quit => panic!("a blank line must not end the session"),
    }
}
