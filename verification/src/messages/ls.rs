//! Directory listing exchange: a client daemon asks for the listing hash of
//! one remote directory, and gets back the hash and the path of the listing
//! file the server wrote.

use vstd::prelude::*;

use crate::envelope::encode_rec_str_u64;
use crate::envelope::encode_rec_u64_str;
use crate::envelope::is_rec_str_u64_at;
use crate::envelope::is_rec_u64_str_at;
use crate::envelope::parse_rec_str_u64;
use crate::envelope::parse_rec_u64_str;
use crate::envelope::rec_str_u64;
use crate::envelope::rec_u64_str;
use crate::envelope::str_fits;
use crate::errors::ProtocolError;
use crate::messages::messagetype::MessageType;
use crate::messages::messagetype::MessageTypeTrait;
use crate::requests::payload::Decode;
use crate::requests::payload::Encode;
use crate::wire::is_arr_hdr;
use crate::wire::is_str_at;
use crate::wire::lemma_is_str_at_fits;
use crate::wire::mp_u64;

verus! {

/// Ask the server daemon for the listing of the directory `ls_path`;
/// `prev_hash` is the listing hash this side last saw for it.
#[derive(Debug)]
pub struct LsRequest {
    /// The discriminant embedded in the record, checked on decode.
    pub message_type: u64,
    pub ls_path: String,
    pub prev_hash: u64,
}

impl MessageTypeTrait for LsRequest {
    open spec fn spec_messagetype() -> MessageType {
        MessageType::LsRequest
    }

    open spec fn spec_is_valid(&self) -> bool {
        self.message_type == MessageType::LsRequest.spec_tag()
    }

    fn messagetype() -> MessageType {
        MessageType::LsRequest
    }

    fn is_valid(&self) -> bool {
        self.message_type == MessageType::LsRequest.tag()
    }
}

impl Encode for LsRequest {
    open spec fn wire_bytes(&self) -> Seq<u8> {
        rec_str_u64(self.message_type, self.ls_path@, self.prev_hash)
    }

    open spec fn enc_ok(&self) -> bool {
        str_fits(self.ls_path@)
    }

    fn as_bytes(&self) -> (r: Vec<u8>) {
        encode_rec_str_u64(self.message_type, self.ls_path.as_str(), self.prev_hash)
    }
}

impl Decode for LsRequest {
    open spec fn eqv(&self, other: &Self) -> bool {
        &&& self.message_type == other.message_type
        &&& self.ls_path@ == other.ls_path@
        &&& self.prev_hash == other.prev_hash
    }

    open spec fn wire_form(&self, data: Seq<u8>) -> bool {
        is_rec_str_u64_at(data, self.message_type, self.ls_path@, self.prev_hash)
    }

    open spec fn mistagged_form(data: Seq<u8>) -> bool {
        exists|t: u64, s: Seq<char>, a: u64|
            t != MessageType::LsRequest.spec_tag() && str_fits(s) && data
                == #[trigger] rec_str_u64(t, s, a)
    }

    open spec fn decode_ok(&self) -> bool {
        self.spec_is_valid()
    }

    fn from_bytes(data: &Vec<u8>) -> (r: Result<Self, ProtocolError>) {
        let parsed = match parse_rec_str_u64(data) {
            Some(p) => p,
            None => {
                proof {
                    if Self::mistagged_form(data@) {
                        let (t, s, a) = choose|t: u64, s: Seq<char>, a: u64|
                            t != MessageType::LsRequest.spec_tag() && str_fits(s) && data@
                                == #[trigger] rec_str_u64(t, s, a);
                    }
                }
                return Err(ProtocolError::MalformedEnvelope);
            },
        };
        let (t, s, a) = parsed;
        if t != MessageType::LsRequest.tag() {
            proof {
                assert forall|m: Self|
                    m.enc_ok() && m.decode_ok() && data@ == #[trigger] m.wire_bytes() implies false by {
                    assert(data@ == rec_str_u64(m.message_type, m.ls_path@, m.prev_hash));
                }
            }
            return Err(ProtocolError::TypeMismatch);
        }
        proof {
            let (h, sp) = choose|h: Seq<u8>, sp: Seq<u8>|
                data@ == h + mp_u64(t) + sp + mp_u64(a) && is_arr_hdr(h, 3) && is_str_at(sp, s@);
            lemma_is_str_at_fits(sp, s@);
            if Self::mistagged_form(data@) {
                let (t0, s0, a0) = choose|t0: u64, s0: Seq<char>, a0: u64|
                    t0 != MessageType::LsRequest.spec_tag() && str_fits(s0) && data@
                        == #[trigger] rec_str_u64(t0, s0, a0);
            }
        }
        Ok(LsRequest { message_type: t, ls_path: s, prev_hash: a })
    }
}

impl LsRequest {
    pub fn new(prev_hash: u64, ls_path: String) -> (r: LsRequest)
        ensures
            r.spec_is_valid(),
            r.prev_hash == prev_hash,
            r.ls_path@ == ls_path@,
    {
        LsRequest { message_type: MessageType::LsRequest.tag(), ls_path, prev_hash }
    }
}

/// The server daemon's answer: the hash of the listing and the path of the
/// listing file it wrote on the remote side.
#[derive(Debug)]
pub struct LsResponse {
    /// The discriminant embedded in the record, checked on decode.
    pub message_type: u64,
    pub hash: u64,
    pub path_to_index_file: String,
}

impl MessageTypeTrait for LsResponse {
    open spec fn spec_messagetype() -> MessageType {
        MessageType::LsResponse
    }

    open spec fn spec_is_valid(&self) -> bool {
        self.message_type == MessageType::LsResponse.spec_tag()
    }

    fn messagetype() -> MessageType {
        MessageType::LsResponse
    }

    fn is_valid(&self) -> bool {
        self.message_type == MessageType::LsResponse.tag()
    }
}

impl Encode for LsResponse {
    open spec fn wire_bytes(&self) -> Seq<u8> {
        rec_u64_str(self.message_type, self.hash, self.path_to_index_file@)
    }

    open spec fn enc_ok(&self) -> bool {
        str_fits(self.path_to_index_file@)
    }

    fn as_bytes(&self) -> (r: Vec<u8>) {
        encode_rec_u64_str(self.message_type, self.hash, self.path_to_index_file.as_str())
    }
}

impl Decode for LsResponse {
    open spec fn eqv(&self, other: &Self) -> bool {
        &&& self.message_type == other.message_type
        &&& self.hash == other.hash
        &&& self.path_to_index_file@ == other.path_to_index_file@
    }

    open spec fn wire_form(&self, data: Seq<u8>) -> bool {
        is_rec_u64_str_at(data, self.message_type, self.hash, self.path_to_index_file@)
    }

    open spec fn mistagged_form(data: Seq<u8>) -> bool {
        exists|t: u64, a: u64, s: Seq<char>|
            t != MessageType::LsResponse.spec_tag() && str_fits(s) && data
                == #[trigger] rec_u64_str(t, a, s)
    }

    open spec fn decode_ok(&self) -> bool {
        self.spec_is_valid()
    }

    fn from_bytes(data: &Vec<u8>) -> (r: Result<Self, ProtocolError>) {
        let parsed = match parse_rec_u64_str(data) {
            Some(p) => p,
            None => {
                proof {
                    if Self::mistagged_form(data@) {
                        let (t, a, s) = choose|t: u64, a: u64, s: Seq<char>|
                            t != MessageType::LsResponse.spec_tag() && str_fits(s) && data@
                                == #[trigger] rec_u64_str(t, a, s);
                    }
                }
                return Err(ProtocolError::MalformedEnvelope);
            },
        };
        let (t, a, s) = parsed;
        if t != MessageType::LsResponse.tag() {
            proof {
                assert forall|m: Self|
                    m.enc_ok() && m.decode_ok() && data@ == #[trigger] m.wire_bytes() implies false by {
                    assert(data@ == rec_u64_str(m.message_type, m.hash, m.path_to_index_file@));
                }
            }
            return Err(ProtocolError::TypeMismatch);
        }
        proof {
            let (h, sp) = choose|h: Seq<u8>, sp: Seq<u8>|
                data@ == h + mp_u64(t) + mp_u64(a) + sp && is_arr_hdr(h, 3) && is_str_at(sp, s@);
            lemma_is_str_at_fits(sp, s@);
            if Self::mistagged_form(data@) {
                let (t0, a0, s0) = choose|t0: u64, a0: u64, s0: Seq<char>|
                    t0 != MessageType::LsResponse.spec_tag() && str_fits(s0) && data@
                        == #[trigger] rec_u64_str(t0, a0, s0);
            }
        }
        Ok(LsResponse { message_type: t, hash: a, path_to_index_file: s })
    }
}

impl LsResponse {
    pub fn new(hash: u64, path_to_index_file: String) -> (r: LsResponse)
        ensures
            r.spec_is_valid(),
            r.hash == hash,
            r.path_to_index_file@ == path_to_index_file@,
    {
        LsResponse { message_type: MessageType::LsResponse.tag(), hash, path_to_index_file }
    }
}

} // verus!
