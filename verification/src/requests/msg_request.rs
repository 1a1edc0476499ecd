//! A plain greeting exchange on the loopback channel, kept as the protocol's
//! smallest end-to-end example.

use vstd::prelude::*;

use crate::envelope::encode_rec_str;
use crate::envelope::is_rec_str_at;
use crate::envelope::parse_rec_str;
use crate::envelope::rec_str;
use crate::envelope::str_fits;
use crate::errors::ProtocolError;
use crate::requests::payload::Decode;
use crate::requests::payload::Encode;
use crate::requests::payload::Payload;
use crate::requests::request::Request;
use crate::requests::request::Response;
use crate::requests::types::PayloadType;
use crate::wire::is_arr_hdr;
use crate::wire::is_str_at;
use crate::wire::lemma_encode_utf8_len;
use crate::wire::lemma_is_str_at_fits;
use crate::wire::mp_u64;

verus! {

/// The discriminant of a greeting request record. The greeting pair lives
/// only on the loopback channel, so its discriminants sit outside the
/// tunnel's table.
pub const MSG_REQUEST_TAG: u64 = 10;

/// The discriminant of a greeting response record.
pub const MSG_RESPONSE_TAG: u64 = 11;

/// The daemon's side of the greeting.
#[derive(Clone, Debug, PartialEq)]
pub struct MsgResponse {
    pub contents: String,
}

impl MsgResponse {
    pub fn new() -> (r: MsgResponse)
        ensures
            r.contents@ == "Hello there!"@,
            r.enc_ok(),
    {
        let contents = "Hello there!".to_owned();
        proof {
            reveal_strlit("Hello there!");
            lemma_encode_utf8_len(contents@);
        }
        MsgResponse { contents }
    }
}

impl Encode for MsgResponse {
    open spec fn wire_bytes(&self) -> Seq<u8> {
        rec_str(MSG_RESPONSE_TAG, self.contents@)
    }

    open spec fn enc_ok(&self) -> bool {
        str_fits(self.contents@)
    }

    fn as_bytes(&self) -> (r: Vec<u8>) {
        encode_rec_str(MSG_RESPONSE_TAG, self.contents.as_str())
    }
}

impl Decode for MsgResponse {
    open spec fn eqv(&self, other: &Self) -> bool {
        self.contents@ == other.contents@
    }

    open spec fn wire_form(&self, data: Seq<u8>) -> bool {
        is_rec_str_at(data, MSG_RESPONSE_TAG, self.contents@)
    }

    open spec fn mistagged_form(data: Seq<u8>) -> bool {
        exists|t: u64, s: Seq<char>|
            t != MSG_RESPONSE_TAG && str_fits(s) && data == #[trigger] rec_str(t, s)
    }

    open spec fn decode_ok(&self) -> bool {
        true
    }

    fn from_bytes(data: &Vec<u8>) -> (r: Result<Self, ProtocolError>) {
        let parsed = match parse_rec_str(data) {
            Some(p) => p,
            None => {
                proof {
                    if Self::mistagged_form(data@) {
                        let (t0, s0) = choose|t0: u64, s0: Seq<char>|
                            t0 != MSG_RESPONSE_TAG && str_fits(s0) && data@ == #[trigger] rec_str(
                                t0,
                                s0,
                            );
                    }
                }
                return Err(ProtocolError::MalformedEnvelope);
            },
        };
        let (t, s) = parsed;
        if t != MSG_RESPONSE_TAG {
            proof {
                assert forall|m: Self|
                    m.enc_ok() && m.decode_ok() && data@ == #[trigger] m.wire_bytes() implies false by {
                    assert(data@ == rec_str(MSG_RESPONSE_TAG, m.contents@));
                }
            }
            return Err(ProtocolError::TypeMismatch);
        }
        proof {
            let (h, sp) = choose|h: Seq<u8>, sp: Seq<u8>|
                data@ == h + mp_u64(t) + sp && is_arr_hdr(h, 2) && is_str_at(sp, s@);
            lemma_is_str_at_fits(sp, s@);
            if Self::mistagged_form(data@) {
                let (t0, s0) = choose|t0: u64, s0: Seq<char>|
                    t0 != MSG_RESPONSE_TAG && str_fits(s0) && data@ == #[trigger] rec_str(t0, s0);
            }
        }
        Ok(MsgResponse { contents: s })
    }
}

impl Response for MsgResponse {
    open spec fn spec_get_type(&self) -> PayloadType {
        PayloadType::Msg
    }

    open spec fn run_allowed(&self) -> bool {
        true
    }

    open spec fn spec_run(&self) -> Result<u16, u16> {
        Ok(0)
    }

    fn get_type(&self) -> PayloadType {
        PayloadType::Msg
    }

    fn run(&self) -> (r: Result<u16, u16>) {
        Ok(0)
    }
}

/// The client's side of the greeting.
#[derive(Clone, Debug, PartialEq)]
pub struct MsgRequest {
    pub contents: String,
}

impl MsgRequest {
    pub fn new() -> (r: MsgRequest)
        ensures
            r.contents@ == "Hiya!"@,
            r.enc_ok(),
    {
        let contents = "Hiya!".to_owned();
        proof {
            reveal_strlit("Hiya!");
            lemma_encode_utf8_len(contents@);
        }
        MsgRequest { contents }
    }
}

impl Encode for MsgRequest {
    open spec fn wire_bytes(&self) -> Seq<u8> {
        rec_str(MSG_REQUEST_TAG, self.contents@)
    }

    open spec fn enc_ok(&self) -> bool {
        str_fits(self.contents@)
    }

    fn as_bytes(&self) -> (r: Vec<u8>) {
        encode_rec_str(MSG_REQUEST_TAG, self.contents.as_str())
    }
}

impl Decode for MsgRequest {
    open spec fn eqv(&self, other: &Self) -> bool {
        self.contents@ == other.contents@
    }

    open spec fn wire_form(&self, data: Seq<u8>) -> bool {
        is_rec_str_at(data, MSG_REQUEST_TAG, self.contents@)
    }

    open spec fn mistagged_form(data: Seq<u8>) -> bool {
        exists|t: u64, s: Seq<char>|
            t != MSG_REQUEST_TAG && str_fits(s) && data == #[trigger] rec_str(t, s)
    }

    open spec fn decode_ok(&self) -> bool {
        true
    }

    fn from_bytes(data: &Vec<u8>) -> (r: Result<Self, ProtocolError>) {
        let parsed = match parse_rec_str(data) {
            Some(p) => p,
            None => {
                proof {
                    if Self::mistagged_form(data@) {
                        let (t0, s0) = choose|t0: u64, s0: Seq<char>|
                            t0 != MSG_REQUEST_TAG && str_fits(s0) && data@ == #[trigger] rec_str(
                                t0,
                                s0,
                            );
                    }
                }
                return Err(ProtocolError::MalformedEnvelope);
            },
        };
        let (t, s) = parsed;
        if t != MSG_REQUEST_TAG {
            proof {
                assert forall|m: Self|
                    m.enc_ok() && m.decode_ok() && data@ == #[trigger] m.wire_bytes() implies false by {
                    assert(data@ == rec_str(MSG_REQUEST_TAG, m.contents@));
                }
            }
            return Err(ProtocolError::TypeMismatch);
        }
        proof {
            let (h, sp) = choose|h: Seq<u8>, sp: Seq<u8>|
                data@ == h + mp_u64(t) + sp && is_arr_hdr(h, 2) && is_str_at(sp, s@);
            lemma_is_str_at_fits(sp, s@);
            if Self::mistagged_form(data@) {
                let (t0, s0) = choose|t0: u64, s0: Seq<char>|
                    t0 != MSG_REQUEST_TAG && str_fits(s0) && data@ == #[trigger] rec_str(t0, s0);
            }
        }
        Ok(MsgRequest { contents: s })
    }
}

impl Request for MsgRequest {
    open spec fn spec_get_type(&self) -> PayloadType {
        PayloadType::Msg
    }

    open spec fn run_ensures(&self, r: Option<Payload>) -> bool {
        match r {
            Some(p) => p.payload_type == PayloadType::Msg && p.data@ == rec_str(
                MSG_RESPONSE_TAG,
                "Hello there!"@,
            ),
            None => false,
        }
    }

    fn get_type(&self) -> PayloadType {
        PayloadType::Msg
    }

    fn run(&self) -> (r: Option<Payload>) {
        Some(Payload::from_response(&MsgResponse::new()))
    }
}

} // verus!
