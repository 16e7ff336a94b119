use bytes::Bytes;
use mini_redis::frame::Frame;
use kvmux::codec::{encode_response, handle_frame, FrameStep};
use kvmux::command::Response;
use kvmux::store::Store;

fn bulk(text: &str) -> Frame {
    Frame::Bulk(Bytes::copy_from_slice(text.as_bytes()))
}

fn command_frame(parts: &[&str]) -> Frame {
    Frame::Array(parts.iter().map(|p| bulk(p)).collect())
}

#[test]
fn set_frame_is_acknowledged_with_ok() {
    let mut store = Store::new();
    let out = handle_frame(&mut store, command_frame(&["set", "foo", "bar"]));
    match out {
        FrameStep::Reply(Frame::Simple(s)) => assert_eq!(s, "OK"),
        _ => panic!("a SET frame must be answered with the simple string OK"),
    }
    assert_eq!(store.get("foo"), Some(b"bar".to_vec()));
}

#[test]
fn get_frame_reads_back_what_set_stored() {
    let mut store = Store::new();
    handle_frame(&mut store, command_frame(&["set", "foo", "bar"]));
    let out = handle_frame(&mut store, command_frame(&["get", "foo"]));
    match out {
        FrameStep::Reply(Frame::Bulk(b)) => assert_eq!(&b[..], b"bar"),
        _ => panic!("a GET frame for a written key must be answered with its bytes"),
    }
}

#[test]
fn get_frame_for_missing_key_is_null() {
    let mut store = Store::new();
    let out = handle_frame(&mut store, command_frame(&["get", "missing"]));
    match out {
        FrameStep::Reply(Frame::Null) => {},
        _ => panic!("a GET frame for a missing key must be answered with the null frame"),
    }
}

#[test]
fn unrecognized_command_frame_is_answered_not_fatal() {
    let mut store = Store::new();
    handle_frame(&mut store, command_frame(&["set", "foo", "bar"]));
    let out = handle_frame(&mut store, command_frame(&["flushdb"]));
    match out {
        FrameStep::Reply(Frame::Error(reason)) => assert_eq!(reason, "unsupported"),
        _ => panic!("an unrecognized command must be answered with an error frame"),
    }
    // The connection stays open: the next frame is still served, and the
    // store was not touched.
    let next = handle_frame(&mut store, command_frame(&["get", "foo"]));
    match next {
        FrameStep::Reply(Frame::Bulk(b)) => assert_eq!(&b[..], b"bar"),
        _ => panic!("the connection must keep serving after an unsupported command"),
    }
}

#[test]
fn known_but_unserved_command_frame_is_answered_with_error() {
    let mut store = Store::new();
    let out = handle_frame(&mut store, command_frame(&["publish", "chan", "msg"]));
    match out {
        FrameStep::Reply(Frame::Error(reason)) => assert_eq!(reason, "unsupported"),
        _ => panic!("a command outside get/set must be answered with an error frame"),
    }
}

#[test]
fn malformed_frame_aborts_the_connection() {
    let mut store = Store::new();
    handle_frame(&mut store, command_frame(&["set", "foo", "bar"]));
    // A command frame must be an array; a bare string cannot be parsed.
    let out = handle_frame(&mut store, Frame::Simple("nonsense".to_string()));
    assert!(matches!(out, FrameStep::Abort));
    // The store keeps what was written before the abort.
    assert_eq!(store.get("foo"), Some(b"bar".to_vec()));
}

#[test]
fn set_with_wrong_arity_is_malformed() {
    let mut store = Store::new();
    let out = handle_frame(&mut store, command_frame(&["set", "foo"]));
    assert!(matches!(out, FrameStep::Abort));
    assert_eq!(store.get("foo"), None);
}

#[test]
fn responses_encode_to_their_frames() {
    match encode_response(Response::Ack) {
        Frame::Simple(s) => assert_eq!(s, "OK"),
        _ => panic!("an acknowledgement must encode as a simple string"),
    }
    match encode_response(Response::Value(Some(b"xyz".to_vec()))) {
        Frame::Bulk(b) => assert_eq!(&b[..], b"xyz"),
        _ => panic!("a found value must encode as a bulk frame"),
    }
    match encode_response(Response::Value(None)) {
        Frame::Null => {},
        _ => panic!("an absent value must encode as the null frame"),
    }
    match encode_response(Response::Error("oops".to_string())) {
        Frame::Error(reason) => assert_eq!(reason, "oops"),
        _ => panic!("an error must encode as an error frame"),
    }
}
