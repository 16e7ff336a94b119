//! Server-side connection handling: applying one decoded command to the
//! store, deciding what one decode event does to a connection, and running a
//! whole connection's worth of events.

use vstd::prelude::*;
use crate::command::{apply_model, copy_bytes, CmdModel, Command, RespModel, Response};
use crate::store::Store;

verus! {

/// What one attempt to decode the next frame of a connection yielded: a
/// command, the orderly end of the stream, or a malformed frame.
#[derive(Debug, Clone, PartialEq, Eq)]
pub enum DecodeEvent {
    Cmd(Command),
    EndOfStream,
    DecodeError,
}

/// The model of a `DecodeEvent`.
pub enum EventModel {
    Cmd(CmdModel),
    EndOfStream,
    DecodeError,
}

impl View for DecodeEvent {
    type V = EventModel;

    open spec fn view(&self) -> EventModel {
        match self {
            DecodeEvent::Cmd(c) => EventModel::Cmd(c@),
            DecodeEvent::EndOfStream => EventModel::EndOfStream,
            DecodeEvent::DecodeError => EventModel::DecodeError,
        }
    }
}

impl DeepView for DecodeEvent {
    type V = EventModel;

    open spec fn deep_view(&self) -> EventModel {
        self.view()
    }
}

/// How a connection ended, if it did: still open, closed in order at end of
/// stream, or torn down after a malformed frame.
#[derive(Debug, Clone, Copy, PartialEq, Eq, Structural)]
pub enum RunEnd {
    Open,
    Normal,
    Aborted,
}

/// What the handler does with one decode event: send a reply and keep the
/// connection, or close it.
#[derive(Debug, Clone, PartialEq, Eq)]
pub enum HandlerAction {
    Respond(Response),
    Close(RunEnd),
}

/// Applies one command to the store and builds the reply owed for it,
/// exactly as `apply_model` says: a read leaves the store alone and reports
/// the looked-up value (absent is a normal result), a write overwrites and is
/// acknowledged, and an unsupported command leaves the store alone and is
/// answered with an error.
pub fn apply_command(store: &mut Store, cmd: &Command) -> (resp: Response)
    ensures
        final(store)@ == apply_model(old(store)@, cmd@).0,
        resp@ == apply_model(old(store)@, cmd@).1,
{
    match cmd {
        Command::Get { key } => Response::Value(store.get(key.as_str())),
        Command::Put { key, value } => {
            let k = key.clone();
            let v = copy_bytes(value);
            store.set(k, v);
            Response::Ack
        },
        Command::Unknown { name: _ } => Response::Error("unsupported".to_string()),
    }
}

/// What one decode event does to the connection, abstractly: the store
/// afterwards, the reply owed (if any), and whether the connection stays
/// open. A command is answered and the connection stays open; end of stream
/// closes it in order; a malformed frame closes it abnormally; neither way of
/// closing touches the store.
pub open spec fn step_model(m: Map<Seq<char>, Seq<u8>>, ev: EventModel) -> (
    Map<Seq<char>, Seq<u8>>,
    Option<RespModel>,
    RunEnd,
) {
    match ev {
        EventModel::Cmd(c) => {
            let (m1, r) = apply_model(m, c);
            (m1, Some(r), RunEnd::Open)
        },
        EventModel::EndOfStream => (m, None, RunEnd::Normal),
        EventModel::DecodeError => (m, None, RunEnd::Aborted),
    }
}

/// Serves one decode event: dispatches a command to the store and wraps the
/// reply, or decides to close the connection, exactly as `step_model` says.
pub fn handler_step(store: &mut Store, ev: &DecodeEvent) -> (action: HandlerAction)
    ensures
        final(store)@ == step_model(old(store)@, ev@).0,
        match action {
            HandlerAction::Respond(resp) => step_model(old(store)@, ev@).1 == Some(resp@)
                && step_model(old(store)@, ev@).2 == RunEnd::Open,
            HandlerAction::Close(end) => step_model(old(store)@, ev@).1 is None && step_model(
                old(store)@,
                ev@,
            ).2 == end && end != RunEnd::Open,
        },
{
    match ev {
        DecodeEvent::Cmd(cmd) => HandlerAction::Respond(apply_command(store, cmd)),
        DecodeEvent::EndOfStream => HandlerAction::Close(RunEnd::Normal),
        DecodeEvent::DecodeError => HandlerAction::Close(RunEnd::Aborted),
    }
}

/// What a whole connection does with a sequence of decode events: the store
/// afterwards, the replies sent in order, and how the connection ended. The
/// handler answers every command before looking at the next event (strict
/// request/response alternation), stops at the first end-of-stream or
/// malformed frame, and never looks past it.
pub open spec fn connection_model(m: Map<Seq<char>, Seq<u8>>, evs: Seq<EventModel>) -> (
    Map<Seq<char>, Seq<u8>>,
    Seq<RespModel>,
    RunEnd,
)
    decreases evs.len(),
{
    if evs.len() == 0 {
        (m, Seq::empty(), RunEnd::Open)
    } else {
        match evs[0] {
            EventModel::Cmd(c) => {
                let (m1, r) = apply_model(m, c);
                let (m2, rs, end) = connection_model(m1, evs.drop_first());
                (m2, seq![r] + rs, end)
            },
            EventModel::EndOfStream => (m, Seq::empty(), RunEnd::Normal),
            EventModel::DecodeError => (m, Seq::empty(), RunEnd::Aborted),
        }
    }
}

/// Serves one connection to completion against a given sequence of decode
/// events: replies come back strictly in request order, the loop stops at the
/// first terminating event, and the store ends as `connection_model` says.
#[verifier::loop_isolation(false)]
pub fn run_connection(store: &mut Store, events: &Vec<DecodeEvent>) -> (out: (
    Vec<Response>,
    RunEnd,
))
    ensures
        final(store)@ == connection_model(old(store)@, events.deep_view()).0,
        out.0.deep_view() == connection_model(old(store)@, events.deep_view()).1,
        out.1 == connection_model(old(store)@, events.deep_view()).2,
{
    let ghost evs = events.deep_view();
    let ghost full = connection_model(old(store)@, evs);
    let mut replies: Vec<Response> = Vec::new();
    let mut i: usize = 0;
    proof {
        assert(evs.skip(0) =~= evs);
        assert(replies.deep_view() + connection_model(store@, evs).1 =~= connection_model(
            store@,
            evs,
        ).1);
    }
    while i < events.len()
        invariant
            i <= events.len(),
            full.0 == connection_model(store@, evs.skip(i as int)).0,
            full.1 == replies.deep_view() + connection_model(store@, evs.skip(i as int)).1,
            full.2 == connection_model(store@, evs.skip(i as int)).2,
        decreases events.len() - i,
    {
        let ghost pre = store@;
        let ghost rest = evs.skip(i as int);
        proof {
            assert(rest.len() > 0);
            assert(rest[0] == evs[i as int]);
            assert(rest.drop_first() =~= evs.skip(i as int + 1));
        }
        let ev = &events[i];
        let action = handler_step(store, ev);
        match action {
            HandlerAction::Respond(resp) => {
                let ghost prev_replies = replies.deep_view();
                let ghost resp_m = resp@;
                replies.push(resp);
                i += 1;
                proof {
                    assert(replies.deep_view() =~= prev_replies.push(resp_m));
                    assert(prev_replies.push(resp_m) =~= prev_replies + seq![resp_m]);
                    assert((prev_replies + seq![resp_m]) + connection_model(
                        store@,
                        evs.skip(i as int),
                    ).1 =~= prev_replies + (seq![resp_m] + connection_model(
                        store@,
                        evs.skip(i as int),
                    ).1));
                }
            },
            HandlerAction::Close(end) => {
                proof {
                    assert(connection_model(pre, rest).1 =~= Seq::<RespModel>::empty());
                    assert(replies.deep_view() + Seq::<RespModel>::empty() =~= replies.deep_view());
                }
                return (replies, end);
            },
        }
    }
    proof {
        assert(evs.skip(events.len() as int) =~= Seq::<EventModel>::empty());
        assert(replies.deep_view() + Seq::<RespModel>::empty() =~= replies.deep_view());
    }
    (replies, RunEnd::Open)
}

} // verus!
