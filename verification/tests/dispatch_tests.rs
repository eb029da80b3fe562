use pir_wire::dispatch::{
    classify, engine_failure_reply_vec, query_reply, unsupported_reply_vec, MsgClass,
};
use pir_wire::errors::EngineFailure;

#[test]
fn command_word_is_setup() {
    assert_eq!(classify(b"setup"), MsgClass::Setup);
}

#[test]
fn command_word_is_case_insensitive() {
    assert_eq!(classify(b"SETUP"), MsgClass::Setup);
    assert_eq!(classify(b"SeTuP"), MsgClass::Setup);
}

#[test]
fn other_five_byte_messages_are_unsupported() {
    assert_eq!(classify(b"setuq"), MsgClass::Unsupported);
    assert_eq!(classify(b"hello"), MsgClass::Unsupported);
    assert_eq!(classify(&[0xff, 0xfe, 0x00, 0x41, 0x42]), MsgClass::Unsupported);
}

#[test]
fn other_lengths_are_queries() {
    assert_eq!(classify(b""), MsgClass::Query);
    assert_eq!(classify(b"set"), MsgClass::Query);
    assert_eq!(classify(b"setup "), MsgClass::Query);
    assert_eq!(classify(&vec![0u8; 4096]), MsgClass::Query);
}

#[test]
fn reply_texts_exact() {
    assert_eq!(unsupported_reply_vec(), b"unsupported request".to_vec());
    assert_eq!(engine_failure_reply_vec(), b"failed to run PIR query".to_vec());
}

#[test]
fn query_reply_passes_response_through() {
    let resp = vec![42u8, 0, 13];
    assert_eq!(query_reply(Ok(resp.clone())), resp);
}

#[test]
fn query_reply_maps_failure_to_fixed_text() {
    assert_eq!(query_reply(Err(EngineFailure)), b"failed to run PIR query".to_vec());
}
