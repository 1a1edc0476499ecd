//! The init exchange: the first message a freshly connected peer sends over
//! the tunnel, and its acknowledgement.

use vstd::prelude::*;

use crate::envelope::encode_rec_str;
use crate::envelope::is_rec_str_at;
use crate::envelope::parse_rec_str;
use crate::envelope::rec_str;
use crate::envelope::str_fits;
use crate::errors::ProtocolError;
use crate::messages::messagetype::MessageType;
use crate::requests::payload::Decode;
use crate::requests::payload::Encode;
use crate::wire::is_arr_hdr;
use crate::wire::is_str_at;
use crate::wire::lemma_encode_utf8_len;
use crate::wire::lemma_is_str_at_fits;
use crate::wire::mp_u64;

verus! {

/// The acknowledgement of an init request.
#[derive(Clone, Debug, PartialEq)]
pub struct InitResponse {
    pub contents: String,
}

impl Encode for InitResponse {
    open spec fn wire_bytes(&self) -> Seq<u8> {
        rec_str(MessageType::InitResponse.spec_tag(), self.contents@)
    }

    open spec fn enc_ok(&self) -> bool {
        str_fits(self.contents@)
    }

    fn as_bytes(&self) -> (r: Vec<u8>) {
        encode_rec_str(MessageType::InitResponse.tag(), self.contents.as_str())
    }
}

impl Decode for InitResponse {
    open spec fn eqv(&self, other: &Self) -> bool {
        self.contents@ == other.contents@
    }

    open spec fn wire_form(&self, data: Seq<u8>) -> bool {
        is_rec_str_at(data, MessageType::InitResponse.spec_tag(), self.contents@)
    }

    open spec fn mistagged_form(data: Seq<u8>) -> bool {
        exists|t: u64, s: Seq<char>|
            t != MessageType::InitResponse.spec_tag() && str_fits(s) && data == #[trigger] rec_str(
                t,
                s,
            )
    }

    open spec fn decode_ok(&self) -> bool {
        true
    }

    fn from_bytes(data: &Vec<u8>) -> (r: Result<Self, ProtocolError>) {
        let parsed = match parse_rec_str(data) {
            Some(p) => p,
            None => {
                proof {
                    if Self::mistagged_form(data@) {
                        let (t0, s0) = choose|t0: u64, s0: Seq<char>|
                            t0 != MessageType::InitResponse.spec_tag() && str_fits(s0) && data@
                                == #[trigger] rec_str(t0, s0);
                    }
                }
                return Err(ProtocolError::MalformedEnvelope);
            },
        };
        let (t, s) = parsed;
        if t != MessageType::InitResponse.tag() {
            proof {
                assert forall|m: Self|
                    m.enc_ok() && m.decode_ok() && data@ == #[trigger] m.wire_bytes() implies false by {
                    assert(data@ == rec_str(MessageType::InitResponse.spec_tag(), m.contents@));
                }
            }
            return Err(ProtocolError::TypeMismatch);
        }
        proof {
            let (h, sp) = choose|h: Seq<u8>, sp: Seq<u8>|
                data@ == h + mp_u64(t) + sp && is_arr_hdr(h, 2) && is_str_at(sp, s@);
            lemma_is_str_at_fits(sp, s@);
            if Self::mistagged_form(data@) {
                let (t0, s0) = choose|t0: u64, s0: Seq<char>|
                    t0 != MessageType::InitResponse.spec_tag() && str_fits(s0) && data@
                        == #[trigger] rec_str(t0, s0);
            }
        }
        Ok(InitResponse { contents: s })
    }
}

/// The first message a peer sends once its connection is up.
#[derive(Clone, Debug, PartialEq)]
pub struct InitRequest {
    pub contents: String,
}

impl InitRequest {
    pub fn new() -> (r: InitRequest)
        ensures
            r.contents@ == "Hello there!"@,
            r.enc_ok(),
    {
        let contents = "Hello there!".to_owned();
        proof {
            reveal_strlit("Hello there!");
            lemma_encode_utf8_len(contents@);
        }
        InitRequest { contents }
    }
}

impl Encode for InitRequest {
    open spec fn wire_bytes(&self) -> Seq<u8> {
        rec_str(MessageType::InitRequest.spec_tag(), self.contents@)
    }

    open spec fn enc_ok(&self) -> bool {
        str_fits(self.contents@)
    }

    fn as_bytes(&self) -> (r: Vec<u8>) {
        encode_rec_str(MessageType::InitRequest.tag(), self.contents.as_str())
    }
}

impl Decode for InitRequest {
    open spec fn eqv(&self, other: &Self) -> bool {
        self.contents@ == other.contents@
    }

    open spec fn wire_form(&self, data: Seq<u8>) -> bool {
        is_rec_str_at(data, MessageType::InitRequest.spec_tag(), self.contents@)
    }

    open spec fn mistagged_form(data: Seq<u8>) -> bool {
        exists|t: u64, s: Seq<char>|
            t != MessageType::InitRequest.spec_tag() && str_fits(s) && data == #[trigger] rec_str(
                t,
                s,
            )
    }

    open spec fn decode_ok(&self) -> bool {
        true
    }

    fn from_bytes(data: &Vec<u8>) -> (r: Result<Self, ProtocolError>) {
        let parsed = match parse_rec_str(data) {
            Some(p) => p,
            None => {
                proof {
                    if Self::mistagged_form(data@) {
                        let (t0, s0) = choose|t0: u64, s0: Seq<char>|
                            t0 != MessageType::InitRequest.spec_tag() && str_fits(s0) && data@
                                == #[trigger] rec_str(t0, s0);
                    }
                }
                return Err(ProtocolError::MalformedEnvelope);
            },
        };
        let (t, s) = parsed;
        if t != MessageType::InitRequest.tag() {
            proof {
                assert forall|m: Self|
                    m.enc_ok() && m.decode_ok() && data@ == #[trigger] m.wire_bytes() implies false by {
                    assert(data@ == rec_str(MessageType::InitRequest.spec_tag(), m.contents@));
                }
            }
            return Err(ProtocolError::TypeMismatch);
        }
        proof {
            let (h, sp) = choose|h: Seq<u8>, sp: Seq<u8>|
                data@ == h + mp_u64(t) + sp && is_arr_hdr(h, 2) && is_str_at(sp, s@);
            lemma_is_str_at_fits(sp, s@);
            if Self::mistagged_form(data@) {
                let (t0, s0) = choose|t0: u64, s0: Seq<char>|
                    t0 != MessageType::InitRequest.spec_tag() && str_fits(s0) && data@
                        == #[trigger] rec_str(t0, s0);
            }
        }
        Ok(InitRequest { contents: s })
    }
}

} // verus!
