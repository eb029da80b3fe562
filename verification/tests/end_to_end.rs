use pir_wire::bundle::{decode_setup_params, encode_setup_params};
use pir_wire::codec::FrameDecoder;
use pir_wire::errors::{QueryError, ServerSetupError, SessionSetupError};
use pir_wire::server_state::ServerState;
use pir_wire::session::Session;

fn deframe(bytes: &[u8]) -> Vec<u8> {
    let mut d = FrameDecoder::new();
    let n = d.feed(bytes);
    assert_eq!(n, bytes.len(), "a reply must be exactly one frame");
    assert!(d.is_complete(), "a reply must be a complete frame");
    d.into_message()
}

fn demo_server() -> ServerState {
    let seed = vec![7u8; 32];
    // The dataset {"alice": "1", "bob": "2"}, values kept in their JSON form.
    let entries = vec![
        (b"alice".to_vec(), b"\"1\"".to_vec()),
        (b"bob".to_vec(), b"\"2\"".to_vec()),
    ];
    ServerState::setup(&seed, &entries).expect("engine setup on a small database must succeed")
}

fn handshake(server: &ServerState) -> Session {
    let reply = server.handle_message(b"setup");
    let bundle = deframe(&reply);
    Session::new(&bundle).expect("the bundle the server built must be accepted")
}

#[test]
fn empty_database_is_refused() {
    let seed = vec![7u8; 32];
    let entries: Vec<(Vec<u8>, Vec<u8>)> = vec![];
    match ServerState::setup(&seed, &entries) {
        Err(ServerSetupError::EmptyDatabase) => {}
        _ => panic!("an empty database must be refused as such"),
    }
}

#[test]
fn oversized_value_is_refused() {
    let seed = vec![7u8; 32];
    let entries = vec![(b"alice".to_vec(), vec![0u8; 4097])];
    match ServerState::setup(&seed, &entries) {
        Err(ServerSetupError::DatasetTooLarge) => {}
        _ => panic!("a value beyond the engine capacity box must be refused as such"),
    }
}

#[test]
fn oversized_entry_count_is_refused() {
    let seed = vec![7u8; 32];
    let mut entries: Vec<(Vec<u8>, Vec<u8>)> = Vec::new();
    for i in 0..100_001u32 {
        entries.push((i.to_le_bytes().to_vec(), b"v".to_vec()));
    }
    match ServerState::setup(&seed, &entries) {
        Err(ServerSetupError::DatasetTooLarge) => {}
        _ => panic!("an entry count beyond the engine capacity box must be refused as such"),
    }
}

#[test]
fn largest_allowed_value_is_accepted() {
    let seed = vec![7u8; 32];
    let entries = vec![(b"alice".to_vec(), vec![0u8; 4096])];
    assert!(ServerState::setup(&seed, &entries).is_ok());
}

#[test]
fn setup_replies_are_byte_identical() {
    let server = demo_server();
    // Two independent setup requests, as from two different connections.
    let r1 = server.handle_message(b"setup");
    let r2 = server.handle_message(b"SETUP");
    assert_eq!(r1, r2);
}

#[test]
fn unsupported_command_gets_explicit_reply() {
    let server = demo_server();
    let reply = server.handle_message(b"hello");
    assert_eq!(deframe(&reply), b"unsupported request".to_vec());
}

#[test]
fn malformed_query_gets_failure_text_not_a_dropped_frame() {
    let server = demo_server();
    let reply = server.handle_message(b"zz");
    assert_eq!(deframe(&reply), b"failed to run PIR query".to_vec());
}

#[test]
fn oversized_matrix_header_gets_failure_text() {
    let server = demo_server();
    // Sixteen bytes whose header declares u32::MAX rows and columns: the
    // shape check must answer it at the protocol level.
    let mut msg = vec![0xffu8; 8];
    msg.extend_from_slice(&[0u8; 8]);
    let reply = server.handle_message(&msg);
    assert_eq!(deframe(&reply), b"failed to run PIR query".to_vec());
}

#[test]
fn well_shaped_but_wrong_query_reaches_engine_and_fails() {
    let server = demo_server();
    // A consistent 1-by-1 matrix that is no real query: the engine refuses
    // it and the reply carries the failure text, still framed.
    let msg = vec![1u8, 0, 0, 0, 1, 0, 0, 0, 9, 9, 9, 9];
    let reply = server.handle_message(&msg);
    assert_eq!(deframe(&reply), b"failed to run PIR query".to_vec());
}

#[test]
fn forged_filter_is_rejected_at_handshake() {
    let server = demo_server();
    let bundle = deframe(&server.handle_message(b"setup"));
    let mut params = decode_setup_params(&bundle).expect("the server's own bundle decodes");
    // Zero the filter's element bit length: the forged bundle must be
    // refused before it can reach the engine.
    for i in 60..68 {
        params.filter[i] = 0;
    }
    let forged = encode_setup_params(&params);
    match Session::new(&forged) {
        Err(SessionSetupError::MalformedBundle) => {}
        _ => panic!("a forged filter record must be refused as malformed"),
    }
}

#[test]
fn garbage_reply_fails_one_query_not_the_session() {
    let server = demo_server();
    let mut session = handshake(&server);

    let _ = session.begin_query(b"alice").expect("query encoding must succeed");
    assert_eq!(session.finish_query(b"junk"), Err(QueryError::DecodeFailed));

    // A reply whose header declares absurd dimensions fails the same way.
    let _ = session.begin_query(b"bob").expect("query encoding must succeed");
    let mut huge = vec![0xffu8; 8];
    huge.extend_from_slice(&[0u8; 8]);
    assert_eq!(session.finish_query(&huge), Err(QueryError::DecodeFailed));
}

#[test]
fn malformed_bundle_is_rejected() {
    match Session::new(b"not a bundle") {
        Err(SessionSetupError::MalformedBundle) => {}
        _ => panic!("garbage bytes must be reported as a malformed bundle"),
    }
}

#[test]
fn end_to_end_query_scenario() {
    let server = demo_server();
    let mut session = handshake(&server);

    // A present key decodes to its stored value.
    let framed_query = session.begin_query(b"alice").expect("query encoding must succeed");
    let query = deframe(&framed_query);
    let framed_response = server.handle_message(&query);
    let response = deframe(&framed_response);
    let value = session.finish_query(&response).expect("the response for a present key decodes");
    assert_eq!(value, b"\"1\"".to_vec());

    // An absent key still gets a successfully framed response; whether it
    // decodes is the engine's business.
    let framed_query = session.begin_query(b"carol").expect("query encoding must succeed");
    let query = deframe(&framed_query);
    let framed_response = server.handle_message(&query);
    let response = deframe(&framed_response);
    let _ = session.finish_query(&response);
}

#[test]
fn concurrent_connections_are_isolated() {
    let server = demo_server();
    // Two sessions against the one shared server state, interleaved.
    let mut alice_session = handshake(&server);
    let mut bob_session = handshake(&server);

    let qa = deframe(&alice_session.begin_query(b"alice").expect("query encoding must succeed"));
    let qb = deframe(&bob_session.begin_query(b"bob").expect("query encoding must succeed"));
    let ra = deframe(&server.handle_message(&qa));
    let rb = deframe(&server.handle_message(&qb));

    let va = alice_session.finish_query(&ra).expect("response for this session's own query");
    let vb = bob_session.finish_query(&rb).expect("response for this session's own query");
    assert_eq!(va, b"\"1\"".to_vec());
    assert_eq!(vb, b"\"2\"".to_vec());
}

#[test]
fn query_pairing_is_enforced() {
    let server = demo_server();
    let mut session = handshake(&server);

    // Resolving without a pending query is refused.
    assert_eq!(session.finish_query(b"anything"), Err(QueryError::NoQueryInFlight));

    // A second query may not begin while one is in flight.
    let first = session.begin_query(b"alice").expect("query encoding must succeed");
    assert_eq!(session.begin_query(b"bob"), Err(QueryError::QueryInFlight));

    // Resolving the pending query frees the session for the next one.
    let response = deframe(&server.handle_message(&deframe(&first)));
    assert_eq!(session.finish_query(&response), Ok(b"\"1\"".to_vec()));
    assert!(session.begin_query(b"bob").is_ok());
}
