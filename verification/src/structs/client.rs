//! The client daemon: the local end of the tunnel. It remembers the
//! connection it was resolved for and the last index hash it has seen, and
//! dispatches the responses that come back over the tunnel.

use vstd::prelude::*;

use crate::envelope::is_rec_i64_bin_bin_at;
use crate::envelope::is_rec_str_at;
use crate::envelope::is_rec_u64_at;
use crate::envelope::is_rec_u64_str_at;
use crate::errors::IdentityError;
use crate::errors::ProtocolError;
use crate::messages::index::IndexResponse;
use crate::messages::ls::LsResponse;
use crate::messages::messagetype::MessageType;
use crate::messages::messagetype::MessageTypeTrait;
use crate::requests::exit_request::ExitResponse;
use crate::requests::init_request::InitResponse;
use crate::requests::payload::Decode;
use crate::requests::payload::Encode;
use crate::requests::shell_request::ShellResponse;
use crate::utils::workspace::DaemonRecord;
use crate::wire::lemma_be_bytes_len;
use crate::wire::mp_arr_hdr;
use crate::wire::mp_u64;

verus! {

/// The message kinds the client daemon's registry holds a handler for.
pub open spec fn client_handles(mt: MessageType) -> bool {
    match mt {
        MessageType::IndexResponse => true,
        MessageType::LsResponse => true,
        MessageType::ShellResponse => true,
        MessageType::InitResponse => true,
        MessageType::ExitResponse => true,
        _ => false,
    }
}

/// What the client daemon's loop must do for one dispatched response.
#[derive(Debug, PartialEq)]
pub enum ClientAction {
    /// The remote index was recomputed: remember its hash (already done)
    /// and fetch the index file at this remote path.
    SaveIndex { hash: u64, path_to_index_file: String },
    /// The remote listing was recomputed: fetch the listing file.
    SaveLs { hash: u64, path_to_index_file: String },
    /// Hand the finished command's outcome to the waiting local client.
    DeliverShell { status: i32, stdout: Vec<u8>, stderr: Vec<u8> },
    /// Nothing to do beyond noting the acknowledgement.
    Acknowledged,
}

/// The client daemon's standing state: the connection it serves and the
/// last index hash it has seen. All connection work is the runtime's; the
/// decisions are here.
#[derive(Clone, Debug)]
pub struct ClientDaemon {
    pub host: String,
    pub workspace: String,
    pub client_path: String,
    pub client_port: String,
    pub server_port: String,
    pub current_index_hash: u64,
}

impl ClientDaemon {
    /// Resolve the daemon's state against an optionally persisted record:
    /// a record for the same host and workspace carries the index hash
    /// over; a record for anything else is refused rather than silently
    /// overwritten.
    pub fn new(
        host: String,
        workspace: String,
        client_path: String,
        client_port: String,
        server_port: String,
        stored: Option<&DaemonRecord>,
    ) -> (r: Result<ClientDaemon, IdentityError>)
        ensures
            match stored {
                Some(rec) => if rec.host@ == host@ && rec.workspace_path@ == workspace@ {
                    match r {
                        Ok(d) => d.host@ == host@ && d.workspace@ == workspace@ && d.client_path@
                            == client_path@ && d.client_port@ == client_port@ && d.server_port@
                            == server_port@ && d.current_index_hash == rec.last_index_hash,
                        Err(_) => false,
                    }
                } else {
                    r == Err::<ClientDaemon, IdentityError>(IdentityError::RecordMismatch)
                },
                None => match r {
                    Ok(d) => d.host@ == host@ && d.workspace@ == workspace@ && d.client_path@
                        == client_path@ && d.client_port@ == client_port@ && d.server_port@
                        == server_port@ && d.current_index_hash == 0,
                    Err(_) => false,
                },
            },
    {
        let current_index_hash: u64 = match stored {
            Some(rec) => {
                if !(rec.host.eq(&host) && rec.workspace_path.eq(&workspace)) {
                    return Err(IdentityError::RecordMismatch);
                }
                rec.last_index_hash
            },
            None => 0,
        };
        Ok(
            ClientDaemon {
                host,
                workspace,
                client_path,
                client_port,
                server_port,
                current_index_hash,
            },
        )
    }

    /// Note the index hash the server last reported.
    pub fn update_index_hash(&mut self, hash: u64)
        ensures
            final(self).current_index_hash == hash,
            final(self).host@ == old(self).host@,
            final(self).workspace@ == old(self).workspace@,
            final(self).client_path@ == old(self).client_path@,
            final(self).client_port@ == old(self).client_port@,
            final(self).server_port@ == old(self).server_port@,
    {
        self.current_index_hash = hash;
    }

    /// Dispatch one response from the tunnel: inspect the discriminant
    /// first, and only decode the body of a kind this role handles. The
    /// index-response handler is the one mutation of daemon state: it notes
    /// the reported hash. Anything refused leaves the daemon untouched. An
    /// action certifies its input: whatever comes back `Ok`, the bytes are
    /// an accepted encoding of the matching kind — so bytes that are no
    /// well-formed record never yield an action, only an error, and never
    /// touch the index hash.
    pub fn handle(&mut self, bytes: &Vec<u8>) -> (r: Result<ClientAction, ProtocolError>)
        ensures
            match r {
                Ok(a) => match a {
                    ClientAction::SaveIndex { hash, path_to_index_file } => is_rec_u64_str_at(
                        bytes@,
                        MessageType::IndexResponse.spec_tag(),
                        hash,
                        path_to_index_file@,
                    ),
                    ClientAction::SaveLs { hash, path_to_index_file } => is_rec_u64_str_at(
                        bytes@,
                        MessageType::LsResponse.spec_tag(),
                        hash,
                        path_to_index_file@,
                    ),
                    ClientAction::DeliverShell { status, stdout, stderr } => is_rec_i64_bin_bin_at(
                        bytes@,
                        MessageType::ShellResponse.spec_tag(),
                        status as i64,
                        stdout@,
                        stderr@,
                    ),
                    ClientAction::Acknowledged => (exists|s: Seq<char>|
                        is_rec_str_at(bytes@, MessageType::InitResponse.spec_tag(), s)) || (
                    exists|a: u64| is_rec_u64_at(bytes@, MessageType::ExitResponse.spec_tag(), a)),
                },
                Err(_) => true,
            },
            final(self).host@ == old(self).host@,
            final(self).workspace@ == old(self).workspace@,
            final(self).client_path@ == old(self).client_path@,
            final(self).client_port@ == old(self).client_port@,
            final(self).server_port@ == old(self).server_port@,
            match r {
                Ok(ClientAction::SaveIndex { hash, .. }) => final(self).current_index_hash == hash,
                _ => final(self).current_index_hash == old(self).current_index_hash,
            },
            forall|c: u32, t: u64, rest: Seq<u8>|
                #![trigger mp_arr_hdr(c as nat), mp_u64(t), rest.len()]
                c >= 1 && bytes@ == mp_arr_hdr(c as nat) + mp_u64(t) + rest
                    && MessageType::spec_of_tag(t) is None ==> r == Err::<
                    ClientAction,
                    ProtocolError,
                >(ProtocolError::UnsupportedMessageType),
            forall|c: u32, t: u64, rest: Seq<u8>|
                #![trigger mp_arr_hdr(c as nat), mp_u64(t), rest.len()]
                c >= 1 && bytes@ == mp_arr_hdr(c as nat) + mp_u64(t) + rest && (match
                    MessageType::spec_of_tag(t) {
                    Some(mt) => !client_handles(mt),
                    None => false,
                }) ==> r == Err::<ClientAction, ProtocolError>(
                    ProtocolError::UnsupportedMessageType,
                ),
            forall|m: IndexResponse|
                m.spec_is_valid() && m.enc_ok() && bytes@ == #[trigger] m.wire_bytes() ==> match r {
                    Ok(ClientAction::SaveIndex { hash, path_to_index_file }) => hash == m.hash
                        && path_to_index_file@ == m.path_to_index_file@,
                    _ => false,
                },
            forall|m: LsResponse|
                m.spec_is_valid() && m.enc_ok() && bytes@ == #[trigger] m.wire_bytes() ==> match r {
                    Ok(ClientAction::SaveLs { hash, path_to_index_file }) => hash == m.hash
                        && path_to_index_file@ == m.path_to_index_file@,
                    _ => false,
                },
            forall|m: ShellResponse|
                m.enc_ok() && bytes@ == #[trigger] m.wire_bytes() ==> match r {
                    Ok(ClientAction::DeliverShell { status, stdout, stderr }) => status == m.status
                        && stdout@ == m.stdout@ && stderr@ == m.stderr@,
                    _ => false,
                },
            forall|m: InitResponse|
                m.enc_ok() && bytes@ == #[trigger] m.wire_bytes() ==> r == Ok::<
                    ClientAction,
                    ProtocolError,
                >(ClientAction::Acknowledged),
            forall|m: ExitResponse|
                bytes@ == #[trigger] m.wire_bytes() ==> r == Ok::<ClientAction, ProtocolError>(
                    ClientAction::Acknowledged,
                ),
    {
        proof {
            broadcast use lemma_be_bytes_len;

            assert forall|m: IndexResponse|
                m.spec_is_valid() && m.enc_ok() && bytes@
                    == #[trigger] m.wire_bytes() implies bytes@ == mp_arr_hdr(3u32 as nat) + mp_u64(
                m.message_type,
            ) + bytes@.subrange(10, bytes@.len() as int) && bytes@.subrange(
                10,
                bytes@.len() as int,
            ).len() >= 0 by {
                crate::envelope::lemma_rec_u64_str_layout(
                    m.message_type,
                    m.hash,
                    m.path_to_index_file@,
                );
                crate::structs::server::lemma_peek_shape(bytes@, 3u32, m.message_type);
            }
            assert forall|m: LsResponse|
                m.spec_is_valid() && m.enc_ok() && bytes@
                    == #[trigger] m.wire_bytes() implies bytes@ == mp_arr_hdr(3u32 as nat) + mp_u64(
                m.message_type,
            ) + bytes@.subrange(10, bytes@.len() as int) && bytes@.subrange(
                10,
                bytes@.len() as int,
            ).len() >= 0 by {
                crate::envelope::lemma_rec_u64_str_layout(
                    m.message_type,
                    m.hash,
                    m.path_to_index_file@,
                );
                crate::structs::server::lemma_peek_shape(bytes@, 3u32, m.message_type);
            }
            assert forall|m: ShellResponse|
                m.enc_ok() && bytes@ == #[trigger] m.wire_bytes() implies bytes@ == mp_arr_hdr(
                4u32 as nat,
            ) + mp_u64(MessageType::ShellResponse.spec_tag()) + bytes@.subrange(
                10,
                bytes@.len() as int,
            ) && bytes@.subrange(10, bytes@.len() as int).len() >= 0 by {
                crate::envelope::lemma_rec_i64_bin_bin_layout(
                    MessageType::ShellResponse.spec_tag(),
                    m.status as i64,
                    m.stdout@,
                    m.stderr@,
                );
                crate::structs::server::lemma_peek_shape(
                    bytes@,
                    4u32,
                    MessageType::ShellResponse.spec_tag(),
                );
            }
            assert forall|m: InitResponse|
                m.enc_ok() && bytes@ == #[trigger] m.wire_bytes() implies bytes@ == mp_arr_hdr(
                2u32 as nat,
            ) + mp_u64(MessageType::InitResponse.spec_tag()) + bytes@.subrange(
                10,
                bytes@.len() as int,
            ) && bytes@.subrange(10, bytes@.len() as int).len() >= 0 by {
                crate::envelope::lemma_rec_str_layout(
                    MessageType::InitResponse.spec_tag(),
                    m.contents@,
                );
                crate::structs::server::lemma_peek_shape(
                    bytes@,
                    2u32,
                    MessageType::InitResponse.spec_tag(),
                );
            }
            assert forall|m: ExitResponse|
                bytes@ == #[trigger] m.wire_bytes() implies bytes@ == mp_arr_hdr(2u32 as nat)
                    + mp_u64(MessageType::ExitResponse.spec_tag()) + bytes@.subrange(
                10,
                bytes@.len() as int,
            ) && bytes@.subrange(10, bytes@.len() as int).len() >= 0 by {
                crate::envelope::lemma_rec_u64_layout(
                    MessageType::ExitResponse.spec_tag(),
                    m.status as u64,
                );
                crate::structs::server::lemma_peek_shape(
                    bytes@,
                    2u32,
                    MessageType::ExitResponse.spec_tag(),
                );
            }
        }
        let t = match crate::envelope::peek_tag(bytes) {
            Some(t) => t,
            None => {
                return Err(ProtocolError::MalformedEnvelope);
            },
        };
        let mt = match MessageType::of_tag(t) {
            Some(mt) => mt,
            None => {
                return Err(ProtocolError::UnsupportedMessageType);
            },
        };
        match mt {
            MessageType::IndexResponse => match IndexResponse::from_bytes(bytes) {
                Ok(m) => {
                    self.current_index_hash = m.hash;
                    Ok(
                        ClientAction::SaveIndex {
                            hash: m.hash,
                            path_to_index_file: m.path_to_index_file,
                        },
                    )
                },
                Err(e) => Err(e),
            },
            MessageType::LsResponse => match LsResponse::from_bytes(bytes) {
                Ok(m) => Ok(
                    ClientAction::SaveLs {
                        hash: m.hash,
                        path_to_index_file: m.path_to_index_file,
                    },
                ),
                Err(e) => Err(e),
            },
            MessageType::ShellResponse => match ShellResponse::from_bytes(bytes) {
                Ok(m) => Ok(
                    ClientAction::DeliverShell {
                        status: m.status,
                        stdout: m.stdout,
                        stderr: m.stderr,
                    },
                ),
                Err(e) => Err(e),
            },
            MessageType::InitResponse => match InitResponse::from_bytes(bytes) {
                Ok(m) => {
                    proof {
                        assert(is_rec_str_at(
                            bytes@,
                            MessageType::InitResponse.spec_tag(),
                            m.contents@,
                        ));
                    }
                    Ok(ClientAction::Acknowledged)
                },
                Err(e) => Err(e),
            },
            MessageType::ExitResponse => match ExitResponse::from_bytes(bytes) {
                Ok(m) => {
                    proof {
                        assert(is_rec_u64_at(
                            bytes@,
                            MessageType::ExitResponse.spec_tag(),
                            m.status as u64,
                        ));
                    }
                    Ok(ClientAction::Acknowledged)
                },
                Err(e) => Err(e),
            },
            _ => Err(ProtocolError::UnsupportedMessageType),
        }
    }
}

} // verus!
