//! The frame codec boundary. Frames are mini-redis values and stay opaque
//! here: turning a frame into a command and a response into a frame is
//! delegated to that crate through the trusted items below, and everything
//! between the two — dispatching the command and building the reply — is
//! verified.

use vstd::prelude::*;
use bytes::Bytes;
use mini_redis::frame::Frame;
use crate::command::{apply_model, Command, Response};
use crate::server::{apply_command, DecodeEvent, EventModel};
use crate::store::Store;

verus! {

/// `mini_redis::frame::Frame` as an opaque type: one self-delimited unit of
/// the wire protocol, carried through this crate but never inspected by it.
#[verifier::external_type_specification]
#[verifier::external_body]
pub struct ExFrame(Frame);

/// What a frame decodes to. The decode is a function of the frame alone
/// (mini-redis's `Command::from_frame`), so its result bears a name;
/// `parse_frame` is the one place it is produced, and the contracts here
/// speak of the frame's content only through this name.
pub uninterp spec fn parsed_of(frame: Frame) -> EventModel;

/// Relies on `mini_redis::cmd::Command::from_frame` to parse one frame, and
/// on the `key`/`value` accessors of its `Get` and `Set` variants: a frame
/// decodes to a command or is malformed, never to an end of stream. Commands
/// the codec knows but this service does not serve come back as `Unknown`,
/// to be answered with an error rather than dropped; mini-redis keeps such a
/// command's name behind a crate-private accessor, so the `Unknown` produced
/// here carries an empty one.
#[verifier::external_body]
fn parse_frame(frame: Frame) -> (ev: DecodeEvent)
    ensures
        ev@ == parsed_of(frame),
        !(ev is EndOfStream),
{
    match mini_redis::Command::from_frame(frame) {
        Ok(mini_redis::Command::Get(g)) => DecodeEvent::Cmd(
            Command::Get { key: g.key().to_string() },
        ),
        Ok(mini_redis::Command::Set(s)) => DecodeEvent::Cmd(
            Command::Put { key: s.key().to_string(), value: s.value().to_vec() },
        ),
        Ok(_) => DecodeEvent::Cmd(Command::Unknown { name: String::new() }),
        Err(_) => DecodeEvent::DecodeError,
    }
}

/// Relies on the `Frame::Simple` constructor of mini-redis.
#[verifier::external_body]
fn frame_simple(text: String) -> Frame {
    Frame::Simple(text)
}

/// Relies on the `Frame::Error` constructor of mini-redis.
#[verifier::external_body]
fn frame_error(reason: String) -> Frame {
    Frame::Error(reason)
}

/// Relies on the `Frame::Bulk` constructor of mini-redis and on
/// `bytes::Bytes::from` to carry the value bytes.
#[verifier::external_body]
fn frame_bulk(value: Vec<u8>) -> Frame {
    Frame::Bulk(Bytes::from(value))
}

/// Relies on the `Frame::Null` constructor of mini-redis.
#[verifier::external_body]
fn frame_null() -> Frame {
    Frame::Null
}

/// Encodes one reply as the frame the wire carries for it: an
/// acknowledgement as the simple string `OK`, a found value as a bulk frame
/// of its bytes, an absent value as the null frame, and an error as an error
/// frame with its reason.
pub fn encode_response(resp: Response) -> Frame {
    match resp {
        Response::Ack => frame_simple("OK".to_string()),
        Response::Value(Some(v)) => frame_bulk(v),
        Response::Value(None) => frame_null(),
        Response::Error(reason) => frame_error(reason),
    }
}

/// What serving one frame leaves for the connection: a reply frame to write
/// back, or the decision to tear the connection down because the frame was
/// malformed.
pub enum FrameStep {
    Reply(Frame),
    Abort,
}

/// Serves one frame of a connection: decodes it, applies the command to the
/// store, and encodes the reply. A frame that decodes to a command is always
/// answered, and the store moves exactly as that command dictates; a
/// malformed frame aborts the connection and leaves the store alone.
pub fn handle_frame(store: &mut Store, frame: Frame) -> (out: FrameStep)
    ensures
        match parsed_of(frame) {
            EventModel::Cmd(c) => out is Reply && final(store)@ == apply_model(
                old(store)@,
                c,
            ).0,
            EventModel::EndOfStream => out is Abort && final(store)@ == old(store)@,
            EventModel::DecodeError => out is Abort && final(store)@ == old(store)@,
        },
{
    match parse_frame(frame) {
        DecodeEvent::Cmd(cmd) => {
            let resp = apply_command(store, &cmd);
            FrameStep::Reply(encode_response(resp))
        },
        _ => FrameStep::Abort,
    }
}

} // verus!
