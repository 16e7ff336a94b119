use kvmux::client::{drain_queue, Delivery, Envelope, Manager, WireOutcome};
use kvmux::command::{Command, Response};
use kvmux::server::{apply_command, handler_step, run_connection, DecodeEvent, HandlerAction, RunEnd};
use kvmux::store::Store;

fn put(key: &str, value: &[u8]) -> Command {
    Command::Put { key: key.to_string(), value: value.to_vec() }
}

fn get(key: &str) -> Command {
    Command::Get { key: key.to_string() }
}

#[test]
fn set_then_get_returns_written_value() {
    let mut store = Store::new();
    let ack = apply_command(&mut store, &put("k", b"v1"));
    assert_eq!(ack, Response::Ack);
    let got = apply_command(&mut store, &get("k"));
    assert_eq!(got, Response::Value(Some(b"v1".to_vec())));
}

#[test]
fn set_twice_last_value_wins() {
    let mut store = Store::new();
    apply_command(&mut store, &put("k", b"first"));
    apply_command(&mut store, &put("k", b"second"));
    let got = apply_command(&mut store, &get("k"));
    assert_eq!(got, Response::Value(Some(b"second".to_vec())));
}

#[test]
fn get_never_written_is_absent_not_error() {
    let mut store = Store::new();
    let got = apply_command(&mut store, &get("missing"));
    assert_eq!(got, Response::Value(None));
    assert!(!matches!(got, Response::Error(_)));
    assert!(!store.contains_key("missing"));
}

#[test]
fn distinct_keys_never_corrupt_each_other() {
    // Both interleavings of the two writes end with a=1 and b=2.
    let mut store = Store::new();
    apply_command(&mut store, &put("a", b"1"));
    apply_command(&mut store, &put("b", b"2"));
    assert_eq!(store.get("a"), Some(b"1".to_vec()));
    assert_eq!(store.get("b"), Some(b"2".to_vec()));

    let mut store = Store::new();
    apply_command(&mut store, &put("b", b"2"));
    apply_command(&mut store, &put("a", b"1"));
    assert_eq!(store.get("a"), Some(b"1".to_vec()));
    assert_eq!(store.get("b"), Some(b"2".to_vec()));
}

#[test]
fn each_caller_reads_its_own_key() {
    // Three callers, each with a distinct key, set-then-get, with the
    // submissions of different callers interleaved in the queue.
    let mut store = Store::new();
    let queue = vec![
        Envelope { caller: 1, cmd: put("k1", b"v1") },
        Envelope { caller: 2, cmd: put("k2", b"v2") },
        Envelope { caller: 3, cmd: put("k3", b"v3") },
        Envelope { caller: 2, cmd: get("k2") },
        Envelope { caller: 1, cmd: get("k1") },
        Envelope { caller: 3, cmd: get("k3") },
    ];
    let out = drain_queue(&mut store, &queue);
    assert_eq!(out.len(), 6);
    assert_eq!(out[3].caller, 2);
    assert_eq!(out[3].resp, Response::Value(Some(b"v2".to_vec())));
    assert_eq!(out[4].caller, 1);
    assert_eq!(out[4].resp, Response::Value(Some(b"v1".to_vec())));
    assert_eq!(out[5].caller, 3);
    assert_eq!(out[5].resp, Response::Value(Some(b"v3".to_vec())));
}

#[test]
fn set_then_get_from_two_callers_in_queue_order() {
    // Set enqueued first, Get second: the manager sends the Set first, the
    // server acknowledges, and the Get reads the value just written.
    let mut store = Store::new();
    let queue = vec![
        Envelope { caller: 10, cmd: put("foo", b"bar") },
        Envelope { caller: 20, cmd: get("foo") },
    ];
    let out = drain_queue(&mut store, &queue);
    assert_eq!(out.len(), 2);
    assert_eq!(out[0].caller, 10);
    assert_eq!(out[0].resp, Response::Ack);
    assert_eq!(out[1].caller, 20);
    assert_eq!(out[1].resp, Response::Value(Some(b"bar".to_vec())));
}

#[test]
fn lost_connection_yields_error_delivery_and_halts_manager() {
    let mut manager = Manager::new();
    assert!(manager.accepts());
    let d = manager.conclude(WireOutcome::ConnLost);
    assert_eq!(d, Delivery::Failed);
    assert!(!manager.accepts());
}

#[test]
fn manager_passes_reply_through_unchanged() {
    let mut manager = Manager::new();
    let d = manager.conclude(WireOutcome::Reply(Response::Ack));
    assert_eq!(d, Delivery::Reply(Response::Ack));
    assert!(manager.accepts());
}

#[test]
fn unsupported_command_answers_error_and_keeps_connection() {
    let mut store = Store::new();
    apply_command(&mut store, &put("keep", b"me"));
    let action = handler_step(
        &mut store,
        &DecodeEvent::Cmd(Command::Unknown { name: "ping".to_string() }),
    );
    assert_eq!(
        action,
        HandlerAction::Respond(Response::Error("unsupported".to_string()))
    );
    // The connection stays open and the store is untouched: the next command
    // is still served.
    let next = handler_step(&mut store, &DecodeEvent::Cmd(get("keep")));
    assert_eq!(
        next,
        HandlerAction::Respond(Response::Value(Some(b"me".to_vec())))
    );
}

#[test]
fn end_of_stream_closes_in_order() {
    let mut store = Store::new();
    let action = handler_step(&mut store, &DecodeEvent::EndOfStream);
    assert_eq!(action, HandlerAction::Close(RunEnd::Normal));
}

#[test]
fn decode_error_closes_abnormally() {
    let mut store = Store::new();
    let action = handler_step(&mut store, &DecodeEvent::DecodeError);
    assert_eq!(action, HandlerAction::Close(RunEnd::Aborted));
}

#[test]
fn connection_serves_until_end_of_stream() {
    let mut store = Store::new();
    let events = vec![
        DecodeEvent::Cmd(put("foo", b"bar")),
        DecodeEvent::Cmd(get("foo")),
        DecodeEvent::EndOfStream,
        DecodeEvent::Cmd(get("foo")),
    ];
    let (replies, end) = run_connection(&mut store, &events);
    assert_eq!(end, RunEnd::Normal);
    // Strict alternation: one reply per command, in order, and nothing after
    // the end of the stream.
    assert_eq!(
        replies,
        vec![Response::Ack, Response::Value(Some(b"bar".to_vec()))]
    );
}

#[test]
fn connection_aborts_on_malformed_frame() {
    let mut store = Store::new();
    let events = vec![
        DecodeEvent::Cmd(put("foo", b"bar")),
        DecodeEvent::DecodeError,
        DecodeEvent::Cmd(get("foo")),
    ];
    let (replies, end) = run_connection(&mut store, &events);
    assert_eq!(end, RunEnd::Aborted);
    assert_eq!(replies, vec![Response::Ack]);
    // The store keeps what was written before the abort.
    assert_eq!(store.get("foo"), Some(b"bar".to_vec()));
}

#[test]
fn empty_store_is_empty() {
    let store = Store::new();
    assert_eq!(store.get(""), None);
    assert!(!store.contains_key(""));
}

#[test]
fn empty_key_and_empty_value_are_ordinary() {
    let mut store = Store::new();
    apply_command(&mut store, &put("", b""));
    assert_eq!(store.get(""), Some(Vec::new()));
}
