//! Index exchange: a client daemon asks the server daemon for the file
//! index of the remote workspace, and gets back the index hash and the path
//! of the index file the server wrote.

use vstd::prelude::*;

use crate::envelope::encode_rec_u64_str;
use crate::envelope::is_rec_u64_str_at;
use crate::envelope::parse_rec_u64_str;
use crate::envelope::rec_u64_str;
use crate::envelope::str_fits;
use crate::errors::ProtocolError;
use crate::messages::messagetype::MessageType;
use crate::messages::messagetype::MessageTypeTrait;
use crate::requests::payload::Decode;
use crate::requests::payload::Encode;
use crate::wire::is_arr_hdr;
use crate::wire::is_str_at;
use crate::wire::lemma_is_str_at_fits;
use crate::wire::mp_u64;

verus! {

/// Ask the server daemon to (re)compute the index of `index_path`;
/// `prev_hash` is the last index hash this side has seen.
#[derive(Clone, Debug)]
pub struct IndexRequest {
    /// The discriminant embedded in the record, checked on decode.
    pub message_type: u64,
    pub prev_hash: u64,
    pub index_path: String,
}

impl MessageTypeTrait for IndexRequest {
    open spec fn spec_messagetype() -> MessageType {
        MessageType::IndexRequest
    }

    open spec fn spec_is_valid(&self) -> bool {
        self.message_type == MessageType::IndexRequest.spec_tag()
    }

    fn messagetype() -> MessageType {
        MessageType::IndexRequest
    }

    fn is_valid(&self) -> bool {
        self.message_type == MessageType::IndexRequest.tag()
    }
}

impl Encode for IndexRequest {
    open spec fn wire_bytes(&self) -> Seq<u8> {
        rec_u64_str(self.message_type, self.prev_hash, self.index_path@)
    }

    open spec fn enc_ok(&self) -> bool {
        str_fits(self.index_path@)
    }

    fn as_bytes(&self) -> (r: Vec<u8>) {
        encode_rec_u64_str(self.message_type, self.prev_hash, self.index_path.as_str())
    }
}

impl Decode for IndexRequest {
    open spec fn eqv(&self, other: &Self) -> bool {
        &&& self.message_type == other.message_type
        &&& self.prev_hash == other.prev_hash
        &&& self.index_path@ == other.index_path@
    }

    open spec fn wire_form(&self, data: Seq<u8>) -> bool {
        is_rec_u64_str_at(data, self.message_type, self.prev_hash, self.index_path@)
    }

    open spec fn mistagged_form(data: Seq<u8>) -> bool {
        exists|t: u64, a: u64, s: Seq<char>|
            t != MessageType::IndexRequest.spec_tag() && str_fits(s) && data == #[trigger] rec_u64_str(
                t,
                a,
                s,
            )
    }

    open spec fn decode_ok(&self) -> bool {
        self.spec_is_valid()
    }

    fn from_bytes(data: &Vec<u8>) -> (r: Result<Self, ProtocolError>) {
        let parsed = match parse_rec_u64_str(data) {
            Some(p) => p,
            None => {
                proof {
                    if Self::mistagged_form(data@) {
                        let (t, a, s) = choose|t: u64, a: u64, s: Seq<char>|
                            t != MessageType::IndexRequest.spec_tag() && str_fits(s) && data@
                                == #[trigger] rec_u64_str(t, a, s);
                    }
                }
                return Err(ProtocolError::MalformedEnvelope);
            },
        };
        let (t, a, s) = parsed;
        if t != MessageType::IndexRequest.tag() {
            proof {
                assert forall|m: Self|
                    m.enc_ok() && m.decode_ok() && data@ == #[trigger] m.wire_bytes() implies false by {
                    assert(data@ == rec_u64_str(
                        m.message_type,
                        m.prev_hash,
                        m.index_path@,
                    ));
                }
            }
            return Err(ProtocolError::TypeMismatch);
        }
        proof {
            let (h, sp) = choose|h: Seq<u8>, sp: Seq<u8>|
                data@ == h + mp_u64(t) + mp_u64(a) + sp && is_arr_hdr(h, 3) && is_str_at(sp, s@);
            lemma_is_str_at_fits(sp, s@);
            if Self::mistagged_form(data@) {
                let (t0, a0, s0) = choose|t0: u64, a0: u64, s0: Seq<char>|
                    t0 != MessageType::IndexRequest.spec_tag() && str_fits(s0) && data@
                        == #[trigger] rec_u64_str(t0, a0, s0);
            }
        }
        Ok(IndexRequest { message_type: t, prev_hash: a, index_path: s })
    }
}

/// Law: the wire encoding of an index request determines the request — two
/// requests with the same canonical bytes agree on every field. With
/// `as_bytes` producing exactly those bytes and `from_bytes` accepting them
/// back, encoding a request and decoding the result yields the original
/// value, and its decoded discriminant is the kind's own.
pub proof fn lemma_index_request_encoding_injective(m1: IndexRequest, m2: IndexRequest)
    requires
        m1.enc_ok(),
        m2.enc_ok(),
        m1.wire_bytes() == m2.wire_bytes(),
    ensures
        m1.eqv(&m2),
{
    crate::envelope::lemma_rec_u64_str_inj(
        m1.message_type,
        m1.prev_hash,
        m1.index_path@,
        m2.message_type,
        m2.prev_hash,
        m2.index_path@,
    );
}

impl IndexRequest {
    pub fn new(prev_hash: u64, index_path: String) -> (r: IndexRequest)
        ensures
            r.spec_is_valid(),
            r.prev_hash == prev_hash,
            r.index_path@ == index_path@,
    {
        IndexRequest { message_type: MessageType::IndexRequest.tag(), prev_hash, index_path }
    }
}

/// The server daemon's answer: the hash of the freshly computed index and
/// the path of the index file it wrote on the remote side.
#[derive(Clone, Debug)]
pub struct IndexResponse {
    /// The discriminant embedded in the record, checked on decode.
    pub message_type: u64,
    pub hash: u64,
    pub path_to_index_file: String,
}

impl MessageTypeTrait for IndexResponse {
    open spec fn spec_messagetype() -> MessageType {
        MessageType::IndexResponse
    }

    open spec fn spec_is_valid(&self) -> bool {
        self.message_type == MessageType::IndexResponse.spec_tag()
    }

    fn messagetype() -> MessageType {
        MessageType::IndexResponse
    }

    fn is_valid(&self) -> bool {
        self.message_type == MessageType::IndexResponse.tag()
    }
}

impl Encode for IndexResponse {
    open spec fn wire_bytes(&self) -> Seq<u8> {
        rec_u64_str(self.message_type, self.hash, self.path_to_index_file@)
    }

    open spec fn enc_ok(&self) -> bool {
        str_fits(self.path_to_index_file@)
    }

    fn as_bytes(&self) -> (r: Vec<u8>) {
        encode_rec_u64_str(self.message_type, self.hash, self.path_to_index_file.as_str())
    }
}

impl Decode for IndexResponse {
    open spec fn eqv(&self, other: &Self) -> bool {
        &&& self.message_type == other.message_type
        &&& self.hash == other.hash
        &&& self.path_to_index_file@ == other.path_to_index_file@
    }

    open spec fn wire_form(&self, data: Seq<u8>) -> bool {
        is_rec_u64_str_at(data, self.message_type, self.hash, self.path_to_index_file@)
    }

    open spec fn mistagged_form(data: Seq<u8>) -> bool {
        exists|t: u64, a: u64, s: Seq<char>|
            t != MessageType::IndexResponse.spec_tag() && str_fits(s) && data
                == #[trigger] rec_u64_str(t, a, s)
    }

    open spec fn decode_ok(&self) -> bool {
        self.spec_is_valid()
    }

    fn from_bytes(data: &Vec<u8>) -> (r: Result<Self, ProtocolError>) {
        let parsed = match parse_rec_u64_str(data) {
            Some(p) => p,
            None => {
                proof {
                    if Self::mistagged_form(data@) {
                        let (t, a, s) = choose|t: u64, a: u64, s: Seq<char>|
                            t != MessageType::IndexResponse.spec_tag() && str_fits(s) && data@
                                == #[trigger] rec_u64_str(t, a, s);
                    }
                }
                return Err(ProtocolError::MalformedEnvelope);
            },
        };
        let (t, a, s) = parsed;
        if t != MessageType::IndexResponse.tag() {
            proof {
                assert forall|m: Self|
                    m.enc_ok() && m.decode_ok() && data@ == #[trigger] m.wire_bytes() implies false by {
                    assert(data@ == rec_u64_str(
                        m.message_type,
                        m.hash,
                        m.path_to_index_file@,
                    ));
                }
            }
            return Err(ProtocolError::TypeMismatch);
        }
        proof {
            let (h, sp) = choose|h: Seq<u8>, sp: Seq<u8>|
                data@ == h + mp_u64(t) + mp_u64(a) + sp && is_arr_hdr(h, 3) && is_str_at(sp, s@);
            lemma_is_str_at_fits(sp, s@);
            if Self::mistagged_form(data@) {
                let (t0, a0, s0) = choose|t0: u64, a0: u64, s0: Seq<char>|
                    t0 != MessageType::IndexResponse.spec_tag() && str_fits(s0) && data@
                        == #[trigger] rec_u64_str(t0, a0, s0);
            }
        }
        Ok(IndexResponse { message_type: t, hash: a, path_to_index_file: s })
    }
}

impl IndexResponse {
    pub fn new(hash: u64, path_to_index_file: String) -> (r: IndexResponse)
        ensures
            r.spec_is_valid(),
            r.hash == hash,
            r.path_to_index_file@ == path_to_index_file@,
    {
        IndexResponse { message_type: MessageType::IndexResponse.tag(), hash, path_to_index_file }
    }
}

} // verus!
