//! The server daemon: the remote end of the tunnel. Its accept loop reads
//! one message per connection, dispatches it here, performs the action the
//! dispatch asks for, and writes back the reply built by the matching
//! `*_reply` packager.

use vstd::prelude::*;

use crate::envelope::bin_fits;
use crate::envelope::is_rec_str_at;
use crate::envelope::is_rec_str_strlist_at;
use crate::envelope::is_rec_str_u64_at;
use crate::envelope::is_rec_tag_at;
use crate::envelope::is_rec_u64_str_at;
use crate::envelope::rec_i64_bin_bin;
use crate::envelope::rec_str;
use crate::envelope::rec_tag;
use crate::envelope::rec_u64;
use crate::envelope::rec_u64_str;
use crate::envelope::str_fits;
use crate::errors::ProtocolError;
use crate::messages::index::IndexRequest;
use crate::messages::index::IndexResponse;
use crate::messages::ls::LsRequest;
use crate::messages::ls::LsResponse;
use crate::messages::messagetype::MessageType;
use crate::messages::messagetype::MessageTypeTrait;
use crate::requests::exit_request::ExitRequest;
use crate::requests::exit_request::ExitResponse;
use crate::requests::init_request::InitRequest;
use crate::requests::init_request::InitResponse;
use crate::requests::payload::Decode;
use crate::requests::payload::Encode;
use crate::requests::shell_request::ShellRequest;
use crate::requests::shell_request::ShellResponse;
use crate::wire::lemma_be_bytes_len;
use crate::wire::lemma_encode_utf8_len;
use crate::wire::mp_arr_hdr;
use crate::wire::mp_u64;

verus! {

/// The message kinds the server daemon's registry holds a handler for.
pub open spec fn server_handles(mt: MessageType) -> bool {
    match mt {
        MessageType::IndexRequest => true,
        MessageType::LsRequest => true,
        MessageType::ShellRequest => true,
        MessageType::InitRequest => true,
        MessageType::ExitRequest => true,
        _ => false,
    }
}

/// What the server daemon's loop must do for one dispatched message.
#[derive(Debug, PartialEq)]
pub enum ServerAction {
    /// Compute the index of the given path (an opaque external step), then
    /// answer with `index_reply`.
    ComputeIndex { index_path: String, prev_hash: u64 },
    /// Compute the listing of the given directory, then answer with
    /// `ls_reply`.
    ComputeLs { ls_path: String, prev_hash: u64 },
    /// Run this command in the project directory, then answer with
    /// `shell_reply`.
    RunShell { project_dir: String, args: Vec<String> },
    /// Write these bytes back and close the connection.
    Reply(Vec<u8>),
    /// Write these bytes back, close, and shut the daemon down cleanly.
    ReplyAndExit(Vec<u8>),
}

/// A canonical record of any shape starts with its array header and its
/// discriminant; what follows is the rest.
pub proof fn lemma_peek_shape(data: Seq<u8>, k: u32, tag: u64)
    requires
        1 <= k < 16,
        data.len() >= 10,
        data.subrange(0, 1) == mp_arr_hdr(k as nat),
        data.subrange(1, 10) == mp_u64(tag),
    ensures
        data == mp_arr_hdr(k as nat) + mp_u64(tag) + data.subrange(10, data.len() as int),
        data.subrange(10, data.len() as int).len() == data.len() - 10,
{
    broadcast use lemma_be_bytes_len;

    assert(data =~= mp_arr_hdr(k as nat) + mp_u64(tag) + data.subrange(10, data.len() as int));
}

/// The server daemon's standing state: where it keeps its files, the port
/// it listens on, and the workspace it serves. Creating the directories is
/// the runtime's concern.
#[derive(Clone, Debug)]
pub struct ServerDaemon {
    pub emacs_remote_path: String,
    pub port: String,
    pub workspace: String,
}

impl ServerDaemon {
    pub fn new(emacs_remote_path: String, port: String, workspace: String) -> (r: ServerDaemon)
        ensures
            r.emacs_remote_path@ == emacs_remote_path@,
            r.port@ == port@,
            r.workspace@ == workspace@,
    {
        ServerDaemon { emacs_remote_path, port, workspace }
    }

    pub fn init(&mut self)
        ensures
            *final(self) == *old(self),
    {
    }

    /// Dispatch one message from the tunnel: inspect the discriminant
    /// first, and only decode the body of a kind this role handles. An
    /// unknown discriminant, or one this role holds no handler for, is
    /// refused without touching the body; the connection is dropped and the
    /// daemon carries on. An action certifies its input: whatever comes
    /// back `Ok`, the bytes are an accepted encoding of the matching kind —
    /// so bytes that are no well-formed record never yield an action, only
    /// an error.
    pub fn handle(&self, bytes: &Vec<u8>) -> (r: Result<ServerAction, ProtocolError>)
        ensures
            match r {
                Ok(a) => match a {
                    ServerAction::ComputeIndex { index_path, prev_hash } => is_rec_u64_str_at(
                        bytes@,
                        MessageType::IndexRequest.spec_tag(),
                        prev_hash,
                        index_path@,
                    ),
                    ServerAction::ComputeLs { ls_path, prev_hash } => is_rec_str_u64_at(
                        bytes@,
                        MessageType::LsRequest.spec_tag(),
                        ls_path@,
                        prev_hash,
                    ),
                    ServerAction::RunShell { project_dir, args } => is_rec_str_strlist_at(
                        bytes@,
                        MessageType::ShellRequest.spec_tag(),
                        project_dir@,
                        args.deep_view(),
                    ),
                    ServerAction::Reply(out) => (exists|s: Seq<char>|
                        is_rec_str_at(bytes@, MessageType::InitRequest.spec_tag(), s)) && out@
                        == rec_str(MessageType::InitResponse.spec_tag(), "Hiya!"@),
                    ServerAction::ReplyAndExit(out) => is_rec_tag_at(
                        bytes@,
                        MessageType::ExitRequest.spec_tag(),
                    ) && out@ == rec_u64(MessageType::ExitResponse.spec_tag(), 0),
                },
                Err(_) => true,
            },
            forall|c: u32, t: u64, rest: Seq<u8>|
                #![trigger mp_arr_hdr(c as nat), mp_u64(t), rest.len()]
                c >= 1 && bytes@ == mp_arr_hdr(c as nat) + mp_u64(t) + rest
                    && MessageType::spec_of_tag(t) is None ==> r == Err::<
                    ServerAction,
                    ProtocolError,
                >(ProtocolError::UnsupportedMessageType),
            forall|c: u32, t: u64, rest: Seq<u8>|
                #![trigger mp_arr_hdr(c as nat), mp_u64(t), rest.len()]
                c >= 1 && bytes@ == mp_arr_hdr(c as nat) + mp_u64(t) + rest && (match
                    MessageType::spec_of_tag(t) {
                    Some(mt) => !server_handles(mt),
                    None => false,
                }) ==> r == Err::<ServerAction, ProtocolError>(
                    ProtocolError::UnsupportedMessageType,
                ),
            forall|m: IndexRequest|
                m.spec_is_valid() && m.enc_ok() && bytes@ == #[trigger] m.wire_bytes() ==> match r {
                    Ok(ServerAction::ComputeIndex { index_path, prev_hash }) => index_path@
                        == m.index_path@ && prev_hash == m.prev_hash,
                    _ => false,
                },
            forall|m: LsRequest|
                m.spec_is_valid() && m.enc_ok() && bytes@ == #[trigger] m.wire_bytes() ==> match r {
                    Ok(ServerAction::ComputeLs { ls_path, prev_hash }) => ls_path@ == m.ls_path@
                        && prev_hash == m.prev_hash,
                    _ => false,
                },
            forall|m: ShellRequest|
                m.enc_ok() && bytes@ == #[trigger] m.wire_bytes() ==> match r {
                    Ok(ServerAction::RunShell { project_dir, args }) => project_dir@
                        == m.project_dir@ && args.deep_view() == m.args.deep_view(),
                    _ => false,
                },
            forall|m: InitRequest|
                m.enc_ok() && bytes@ == #[trigger] m.wire_bytes() ==> match r {
                    Ok(ServerAction::Reply(out)) => out@ == rec_str(
                        MessageType::InitResponse.spec_tag(),
                        "Hiya!"@,
                    ),
                    _ => false,
                },
            bytes@ == rec_tag(MessageType::ExitRequest.spec_tag()) ==> match r {
                Ok(ServerAction::ReplyAndExit(out)) => out@ == rec_u64(
                    MessageType::ExitResponse.spec_tag(),
                    0,
                ),
                _ => false,
            },
    {
        proof {
            broadcast use lemma_be_bytes_len;

            assert forall|m: IndexRequest|
                m.spec_is_valid() && m.enc_ok() && bytes@
                    == #[trigger] m.wire_bytes() implies bytes@ == mp_arr_hdr(3u32 as nat) + mp_u64(
                m.message_type,
            ) + bytes@.subrange(10, bytes@.len() as int) && bytes@.subrange(
                10,
                bytes@.len() as int,
            ).len() >= 0 by {
                crate::envelope::lemma_rec_u64_str_layout(
                    m.message_type,
                    m.prev_hash,
                    m.index_path@,
                );
                lemma_peek_shape(bytes@, 3u32, m.message_type);
            }
            assert forall|m: LsRequest|
                m.spec_is_valid() && m.enc_ok() && bytes@
                    == #[trigger] m.wire_bytes() implies bytes@ == mp_arr_hdr(3u32 as nat) + mp_u64(
                m.message_type,
            ) + bytes@.subrange(10, bytes@.len() as int) && bytes@.subrange(
                10,
                bytes@.len() as int,
            ).len() >= 0 by {
                crate::envelope::lemma_rec_str_u64_layout(m.message_type, m.ls_path@, m.prev_hash);
                lemma_peek_shape(bytes@, 3u32, m.message_type);
            }
            assert forall|m: ShellRequest|
                m.enc_ok() && bytes@ == #[trigger] m.wire_bytes() implies bytes@ == mp_arr_hdr(
                3u32 as nat,
            ) + mp_u64(MessageType::ShellRequest.spec_tag()) + bytes@.subrange(
                10,
                bytes@.len() as int,
            ) && bytes@.subrange(10, bytes@.len() as int).len() >= 0 by {
                crate::envelope::lemma_rec_str_strlist_layout(
                    MessageType::ShellRequest.spec_tag(),
                    m.project_dir@,
                    m.args.deep_view(),
                );
                lemma_peek_shape(bytes@, 3u32, MessageType::ShellRequest.spec_tag());
            }
            assert forall|m: InitRequest|
                m.enc_ok() && bytes@ == #[trigger] m.wire_bytes() implies bytes@ == mp_arr_hdr(
                2u32 as nat,
            ) + mp_u64(MessageType::InitRequest.spec_tag()) + bytes@.subrange(
                10,
                bytes@.len() as int,
            ) && bytes@.subrange(10, bytes@.len() as int).len() >= 0 by {
                crate::envelope::lemma_rec_str_layout(
                    MessageType::InitRequest.spec_tag(),
                    m.contents@,
                );
                lemma_peek_shape(bytes@, 2u32, MessageType::InitRequest.spec_tag());
            }
            if bytes@ == rec_tag(MessageType::ExitRequest.spec_tag()) {
                crate::envelope::lemma_rec_tag_layout(MessageType::ExitRequest.spec_tag());
                lemma_peek_shape(bytes@, 1u32, MessageType::ExitRequest.spec_tag());
                assert(ExitRequest {  }.wire_bytes() == rec_tag(MessageType::ExitRequest.spec_tag(
                )));
            }
        }
        let t = match crate::envelope::peek_tag(bytes) {
            Some(t) => t,
            None => {
                return Err(ProtocolError::MalformedEnvelope);
            },
        };
        let mt = match MessageType::of_tag(t) {
            Some(mt) => mt,
            None => {
                return Err(ProtocolError::UnsupportedMessageType);
            },
        };
        match mt {
            MessageType::IndexRequest => match IndexRequest::from_bytes(bytes) {
                Ok(m) => Ok(
                    ServerAction::ComputeIndex {
                        index_path: m.index_path,
                        prev_hash: m.prev_hash,
                    },
                ),
                Err(e) => Err(e),
            },
            MessageType::LsRequest => match LsRequest::from_bytes(bytes) {
                Ok(m) => Ok(ServerAction::ComputeLs { ls_path: m.ls_path, prev_hash: m.prev_hash }),
                Err(e) => Err(e),
            },
            MessageType::ShellRequest => match ShellRequest::from_bytes(bytes) {
                Ok(m) => Ok(ServerAction::RunShell { project_dir: m.project_dir, args: m.args }),
                Err(e) => Err(e),
            },
            MessageType::InitRequest => match InitRequest::from_bytes(bytes) {
                Ok(m) => {
                    let resp = InitResponse { contents: "Hiya!".to_owned() };
                    proof {
                        reveal_strlit("Hiya!");
                        lemma_encode_utf8_len(resp.contents@);
                        assert(is_rec_str_at(
                            bytes@,
                            MessageType::InitRequest.spec_tag(),
                            m.contents@,
                        ));
                    }
                    Ok(ServerAction::Reply(resp.as_bytes()))
                },
                Err(e) => Err(e),
            },
            MessageType::ExitRequest => match ExitRequest::from_bytes(bytes) {
                Ok(_) => Ok(ServerAction::ReplyAndExit(ExitResponse::new(0).as_bytes())),
                Err(e) => Err(e),
            },
            _ => Err(ProtocolError::UnsupportedMessageType),
        }
    }

    /// Package the outcome of the opaque "compute index" step as the reply
    /// the index request is answered with.
    pub fn index_reply(&self, hash: u64, path_to_index_file: String) -> (r: Vec<u8>)
        requires
            str_fits(path_to_index_file@),
        ensures
            r@ == rec_u64_str(MessageType::IndexResponse.spec_tag(), hash, path_to_index_file@),
    {
        IndexResponse::new(hash, path_to_index_file).as_bytes()
    }

    /// Package the outcome of the opaque "compute listing" step as the
    /// reply the listing request is answered with.
    pub fn ls_reply(&self, hash: u64, path_to_index_file: String) -> (r: Vec<u8>)
        requires
            str_fits(path_to_index_file@),
        ensures
            r@ == rec_u64_str(MessageType::LsResponse.spec_tag(), hash, path_to_index_file@),
    {
        LsResponse::new(hash, path_to_index_file).as_bytes()
    }

    /// Package the outcome of a finished shell command as the reply the
    /// shell request is answered with.
    pub fn shell_reply(&self, status: i32, stdout: Vec<u8>, stderr: Vec<u8>) -> (r: Vec<u8>)
        requires
            bin_fits(stdout@),
            bin_fits(stderr@),
        ensures
            r@ == rec_i64_bin_bin(
                MessageType::ShellResponse.spec_tag(),
                status as i64,
                stdout@,
                stderr@,
            ),
    {
        ShellResponse::from_output(status, stdout, stderr).as_bytes()
    }
}

} // verus!
