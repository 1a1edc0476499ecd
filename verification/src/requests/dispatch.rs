//! The dispatch registry: the single front door that turns raw bytes into a
//! typed request or response and hands it to the right handler.
//!
//! The open set of message kinds of earlier designs is closed here into one
//! tagged sum per direction; the registry inspects the discriminant first
//! and only then decodes the body.

use vstd::prelude::*;

use crate::envelope::is_rec_bin_at;
use crate::envelope::is_rec_str_at;
use crate::envelope::is_rec_str_strlist_at;
use crate::envelope::is_rec_tag_at;
use crate::envelope::rec_bin;
use crate::envelope::rec_str;
use crate::envelope::rec_tag;
use crate::envelope::rec_u64;
use crate::errors::ProtocolError;
use crate::messages::messagetype::MessageType;
use crate::requests::msg_request::MSG_REQUEST_TAG;
use crate::requests::msg_request::MSG_RESPONSE_TAG;
use crate::requests::request::Request;
use crate::requests::request::Response;
use crate::wire::lemma_be_bytes_len;
use crate::wire::lemma_encode_utf8_len;
use crate::requests::exit_request::ExitRequest;
use crate::requests::exit_request::ExitResponse;
use crate::requests::msg_request::MsgRequest;
use crate::requests::msg_request::MsgResponse;
use crate::requests::payload::Decode;
use crate::requests::payload::Encode;
use crate::requests::payload::Payload;
use crate::requests::shell_request::ShellRequest;
use crate::requests::shell_request::ShellResponse;
use crate::requests::types::PayloadType;

verus! {

/// How one accepted loopback connection ends.
#[derive(Debug, PartialEq)]
pub enum ConnOutcome {
    /// Write these bytes back, then close the connection.
    Reply(Vec<u8>),
    /// Write these bytes back, close, and begin the daemon's clean
    /// shutdown: an exit request was dispatched successfully.
    ReplyAndShutdown(Vec<u8>),
    /// Run this command in the project directory, then answer with the
    /// outcome packaged by `ShellResponse::from_output`.
    RunShell { project_dir: String, args: Vec<String> },
    /// Drop the connection with no response; the daemon stays available.
    Drop(ProtocolError),
}

/// A decoded loopback request.
#[derive(Debug, PartialEq)]
pub enum RequestKind {
    Shell(ShellRequest),
    Exit(ExitRequest),
    Msg(MsgRequest),
}

/// A decoded loopback response.
#[derive(Debug, PartialEq)]
pub enum ResponseKind {
    Shell(ShellResponse),
    Exit(ExitResponse),
    Msg(MsgResponse),
}

impl Payload {
    /// Decode the carried bytes as the request the payload kind announces.
    pub fn to_request(&self) -> (r: Result<RequestKind, ProtocolError>)
        ensures
            match r {
                Ok(k) => match k {
                    RequestKind::Shell(q) => self.payload_type == PayloadType::Shell
                        && q.wire_form(self.data@) && q.enc_ok(),
                    RequestKind::Exit(q) => self.payload_type == PayloadType::Exit && q.wire_form(
                        self.data@,
                    ),
                    RequestKind::Msg(q) => self.payload_type == PayloadType::Msg && q.wire_form(
                        self.data@,
                    ) && q.enc_ok(),
                },
                Err(_) => true,
            },
            self.payload_type == PayloadType::Shell ==> forall|m: ShellRequest|
                m.enc_ok() && self.data@ == #[trigger] m.wire_bytes() ==> match r {
                    Ok(RequestKind::Shell(q)) => q.eqv(&m),
                    _ => false,
                },
            self.payload_type == PayloadType::Exit ==> forall|m: ExitRequest|
                self.data@ == #[trigger] m.wire_bytes() ==> r == Ok::<RequestKind, ProtocolError>(
                    RequestKind::Exit(ExitRequest {  }),
                ),
            self.payload_type == PayloadType::Msg ==> forall|m: MsgRequest|
                m.enc_ok() && self.data@ == #[trigger] m.wire_bytes() ==> match r {
                    Ok(RequestKind::Msg(q)) => q.eqv(&m),
                    _ => false,
                },
    {
        match self.payload_type {
            PayloadType::Shell => {
                match ShellRequest::from_bytes(&self.data) {
                    Ok(q) => Ok(RequestKind::Shell(q)),
                    Err(e) => Err(e),
                }
            },
            PayloadType::Exit => {
                match ExitRequest::from_bytes(&self.data) {
                    Ok(q) => Ok(RequestKind::Exit(q)),
                    Err(e) => Err(e),
                }
            },
            PayloadType::Msg => {
                match MsgRequest::from_bytes(&self.data) {
                    Ok(q) => Ok(RequestKind::Msg(q)),
                    Err(e) => Err(e),
                }
            },
        }
    }

    /// Decode the carried bytes as the response the payload kind announces.
    pub fn to_response(&self) -> (r: Result<ResponseKind, ProtocolError>)
        ensures
            match r {
                Ok(k) => match k {
                    ResponseKind::Shell(q) => self.payload_type == PayloadType::Shell
                        && q.wire_form(self.data@) && q.enc_ok(),
                    ResponseKind::Exit(q) => self.payload_type == PayloadType::Exit && q.wire_form(
                        self.data@,
                    ),
                    ResponseKind::Msg(q) => self.payload_type == PayloadType::Msg && q.wire_form(
                        self.data@,
                    ) && q.enc_ok(),
                },
                Err(_) => true,
            },
            self.payload_type == PayloadType::Shell ==> forall|m: ShellResponse|
                m.enc_ok() && self.data@ == #[trigger] m.wire_bytes() ==> match r {
                    Ok(ResponseKind::Shell(q)) => q.eqv(&m),
                    _ => false,
                },
            self.payload_type == PayloadType::Exit ==> forall|m: ExitResponse|
                self.data@ == #[trigger] m.wire_bytes() ==> match r {
                    Ok(ResponseKind::Exit(q)) => q.status == m.status,
                    _ => false,
                },
            self.payload_type == PayloadType::Msg ==> forall|m: MsgResponse|
                m.enc_ok() && self.data@ == #[trigger] m.wire_bytes() ==> match r {
                    Ok(ResponseKind::Msg(q)) => q.eqv(&m),
                    _ => false,
                },
    {
        match self.payload_type {
            PayloadType::Shell => {
                match ShellResponse::from_bytes(&self.data) {
                    Ok(q) => Ok(ResponseKind::Shell(q)),
                    Err(e) => Err(e),
                }
            },
            PayloadType::Exit => {
                match ExitResponse::from_bytes(&self.data) {
                    Ok(q) => Ok(ResponseKind::Exit(q)),
                    Err(e) => Err(e),
                }
            },
            PayloadType::Msg => {
                match MsgResponse::from_bytes(&self.data) {
                    Ok(q) => Ok(ResponseKind::Msg(q)),
                    Err(e) => Err(e),
                }
            },
        }
    }
}

/// One accepted loopback connection, from raw bytes to its outcome: decode
/// the payload, dispatch the request, and answer. A connection whose bytes
/// cannot be decoded is dropped with no response and without touching the
/// daemon; only a successfully dispatched exit request ends the accept
/// loop. Every outcome but `Drop` certifies its input: a reply arises only
/// from a decoded greeting, a shutdown only from a decoded exit request,
/// and a shell action only from a decoded shell request — so bytes that
/// are no well-formed payload are always dropped.
pub fn handle_stream_request(bytes: &Vec<u8>) -> (r: ConnOutcome)
    ensures
        match r {
            ConnOutcome::Reply(out) => (exists|b: Seq<u8>|
                #![trigger is_rec_bin_at(bytes@, PayloadType::Msg.spec_tag(), b)]
                is_rec_bin_at(bytes@, PayloadType::Msg.spec_tag(), b) && (exists|s: Seq<char>|
                    is_rec_str_at(b, MSG_REQUEST_TAG, s))) && out@ == rec_bin(
                PayloadType::Msg.spec_tag(),
                rec_str(MSG_RESPONSE_TAG, "Hello there!"@),
            ),
            ConnOutcome::ReplyAndShutdown(out) => (exists|b: Seq<u8>|
                #![trigger is_rec_bin_at(bytes@, PayloadType::Exit.spec_tag(), b)]
                is_rec_bin_at(bytes@, PayloadType::Exit.spec_tag(), b) && is_rec_tag_at(
                    b,
                    MessageType::ExitRequest.spec_tag(),
                )) && out@ == rec_bin(
                PayloadType::Exit.spec_tag(),
                rec_u64(MessageType::ExitResponse.spec_tag(), 0),
            ),
            ConnOutcome::RunShell { project_dir, args } => exists|b: Seq<u8>|
                #![trigger is_rec_bin_at(bytes@, PayloadType::Shell.spec_tag(), b)]
                is_rec_bin_at(bytes@, PayloadType::Shell.spec_tag(), b) && is_rec_str_strlist_at(
                    b,
                    MessageType::ShellRequest.spec_tag(),
                    project_dir@,
                    args.deep_view(),
                ),
            ConnOutcome::Drop(_) => true,
        },
        bytes@ == rec_bin(
            PayloadType::Exit.spec_tag(),
            rec_tag(MessageType::ExitRequest.spec_tag()),
        ) ==> match r {
            ConnOutcome::ReplyAndShutdown(out) => out@ == rec_bin(
                PayloadType::Exit.spec_tag(),
                rec_u64(MessageType::ExitResponse.spec_tag(), 0),
            ),
            _ => false,
        },
        forall|m: MsgRequest|
            m.enc_ok() && m.wire_bytes().len() < crate::wire::LEN32_LIMIT && bytes@ == rec_bin(
                PayloadType::Msg.spec_tag(),
                #[trigger] m.wire_bytes(),
            ) ==> match r {
                ConnOutcome::Reply(out) => out@ == rec_bin(
                    PayloadType::Msg.spec_tag(),
                    rec_str(MSG_RESPONSE_TAG, "Hello there!"@),
                ),
                _ => false,
            },
        forall|m: ShellRequest|
            m.enc_ok() && m.wire_bytes().len() < crate::wire::LEN32_LIMIT && bytes@ == rec_bin(
                PayloadType::Shell.spec_tag(),
                #[trigger] m.wire_bytes(),
            ) ==> match r {
                ConnOutcome::RunShell { project_dir, args } => project_dir@ == m.project_dir@
                    && args.deep_view() == m.args.deep_view(),
                _ => false,
            },
{
    proof {
        broadcast use lemma_be_bytes_len;

        reveal_strlit("Hello there!");
        lemma_encode_utf8_len("Hello there!"@);
        assert(rec_tag(MessageType::ExitRequest.spec_tag()).len() == 10);
    }
    let payload = match Payload::from_bytes(bytes) {
        Ok(p) => p,
        Err(e) => {
            return ConnOutcome::Drop(e);
        },
    };
    let kind = match payload.to_request() {
        Ok(k) => k,
        Err(e) => {
            proof {
                assert(ExitRequest {  }.wire_bytes() == rec_tag(MessageType::ExitRequest.spec_tag(
                )));
            }
            return ConnOutcome::Drop(e);
        },
    };
    match kind {
        RequestKind::Exit(q) => {
            proof {
                assert(ExitRequest {  }.wire_bytes() == rec_tag(MessageType::ExitRequest.spec_tag(
                )));
                assert(is_rec_bin_at(bytes@, PayloadType::Exit.spec_tag(), payload.data@));
                assert(is_rec_tag_at(payload.data@, MessageType::ExitRequest.spec_tag()));
            }
            match q.run() {
                Some(p2) => {
                    proof {
                        assert(p2.data@.len() == 19);
                    }
                    ConnOutcome::ReplyAndShutdown(p2.as_bytes())
                },
                None => {
                    proof {
                        assert(false);
                    }
                    ConnOutcome::Drop(ProtocolError::MalformedEnvelope)
                },
            }
        },
        RequestKind::Msg(q) => {
            proof {
                assert(is_rec_bin_at(bytes@, PayloadType::Msg.spec_tag(), payload.data@));
                assert(is_rec_str_at(payload.data@, MSG_REQUEST_TAG, q.contents@));
            }
            match q.run() {
                Some(p2) => {
                    proof {
                        assert(p2.data@.len() < crate::wire::LEN32_LIMIT);
                    }
                    ConnOutcome::Reply(p2.as_bytes())
                },
                None => {
                    proof {
                        assert(false);
                    }
                    ConnOutcome::Drop(ProtocolError::MalformedEnvelope)
                },
            }
        },
        RequestKind::Shell(q) => {
            proof {
                assert(is_rec_bin_at(bytes@, PayloadType::Shell.spec_tag(), payload.data@));
                assert(is_rec_str_strlist_at(
                    payload.data@,
                    MessageType::ShellRequest.spec_tag(),
                    q.project_dir@,
                    q.args.deep_view(),
                ));
            }
            ConnOutcome::RunShell { project_dir: q.project_dir, args: q.args }
        },
    }
}

/// The client's side of one loopback exchange: decode the daemon's reply
/// and report its exit code. A shell outcome whose status does not fit an
/// exit code is refused rather than misreported; the caller shows any
/// carried output before asking a shell response for its code. A code is
/// only ever reported for a decoded payload: bytes that are no well-formed
/// payload yield the decode error.
pub fn run_response(bytes: &Vec<u8>) -> (r: Result<Result<u16, u16>, ProtocolError>)
    ensures
        match r {
            Ok(_) => exists|t: u64, b: Seq<u8>|
                #![trigger is_rec_bin_at(bytes@, t, b)]
                PayloadType::spec_of_tag(t) is Some && is_rec_bin_at(bytes@, t, b),
            Err(_) => true,
        },
        forall|m: ExitResponse|
            bytes@ == rec_bin(PayloadType::Exit.spec_tag(), #[trigger] m.wire_bytes()) ==> r
                == Ok::<Result<u16, u16>, ProtocolError>(m.spec_run()),
        forall|m: ShellResponse|
            m.enc_ok() && m.wire_bytes().len() < crate::wire::LEN32_LIMIT && 0 <= m.status
                <= 0xffff && bytes@ == rec_bin(
                PayloadType::Shell.spec_tag(),
                #[trigger] m.wire_bytes(),
            ) ==> r == Ok::<Result<u16, u16>, ProtocolError>(Ok(m.status as u16)),
{
    proof {
        broadcast use lemma_be_bytes_len;

        assert forall|m: ExitResponse| (#[trigger] m.wire_bytes()).len() == 19 by {
            crate::envelope::lemma_rec_u64_layout(
                MessageType::ExitResponse.spec_tag(),
                m.status as u64,
            );
        }
    }
    let payload = match Payload::from_bytes(bytes) {
        Ok(p) => p,
        Err(e) => {
            return Err(e);
        },
    };
    let kind = match payload.to_response() {
        Ok(k) => k,
        Err(e) => {
            return Err(e);
        },
    };
    proof {
        assert(PayloadType::spec_of_tag(payload.payload_type.spec_tag()) is Some);
        assert(is_rec_bin_at(bytes@, payload.payload_type.spec_tag(), payload.data@));
    }
    match kind {
        ResponseKind::Exit(q) => Ok(q.run()),
        ResponseKind::Msg(q) => Ok(q.run()),
        ResponseKind::Shell(q) => {
            if q.status < 0 || q.status > 0xffff {
                return Err(ProtocolError::MalformedEnvelope);
            }
            Ok(q.run())
        },
    }
}

} // verus!
