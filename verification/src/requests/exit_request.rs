//! The exit exchange of the loopback channel: a client asks the daemon to
//! shut down cleanly, and the daemon acknowledges with a status.

use vstd::prelude::*;

use crate::envelope::encode_rec_tag;
use crate::envelope::encode_rec_u64;
use crate::envelope::is_rec_tag_at;
use crate::envelope::is_rec_u64_at;
use crate::envelope::parse_rec_tag;
use crate::envelope::parse_rec_u64;
use crate::envelope::rec_tag;
use crate::envelope::rec_u64;
use crate::errors::ProtocolError;
use crate::messages::messagetype::MessageType;
use crate::requests::payload::Decode;
use crate::requests::payload::Encode;
use crate::requests::payload::Payload;
use crate::requests::request::Request;
use crate::requests::request::Response;
use crate::requests::types::PayloadType;

verus! {

/// The daemon's acknowledgement of an exit request: zero means a clean
/// shutdown.
#[derive(Clone, Copy, Debug, PartialEq, Eq, Structural)]
pub struct ExitResponse {
    pub status: u16,
}

impl ExitResponse {
    pub fn new(status: u16) -> (r: ExitResponse)
        ensures
            r.status == status,
    {
        ExitResponse { status }
    }
}

impl Encode for ExitResponse {
    open spec fn wire_bytes(&self) -> Seq<u8> {
        rec_u64(MessageType::ExitResponse.spec_tag(), self.status as u64)
    }

    open spec fn enc_ok(&self) -> bool {
        true
    }

    fn as_bytes(&self) -> (r: Vec<u8>) {
        encode_rec_u64(MessageType::ExitResponse.tag(), self.status as u64)
    }
}

impl Decode for ExitResponse {
    open spec fn eqv(&self, other: &Self) -> bool {
        self.status == other.status
    }

    open spec fn wire_form(&self, data: Seq<u8>) -> bool {
        is_rec_u64_at(data, MessageType::ExitResponse.spec_tag(), self.status as u64)
    }

    open spec fn mistagged_form(data: Seq<u8>) -> bool {
        exists|t: u64, a: u64|
            t != MessageType::ExitResponse.spec_tag() && data == #[trigger] rec_u64(t, a)
    }

    open spec fn decode_ok(&self) -> bool {
        true
    }

    fn from_bytes(data: &Vec<u8>) -> (r: Result<Self, ProtocolError>) {
        let parsed = match parse_rec_u64(data) {
            Some(p) => p,
            None => {
                proof {
                    if Self::mistagged_form(data@) {
                        let (t0, a0) = choose|t0: u64, a0: u64|
                            t0 != MessageType::ExitResponse.spec_tag() && data@
                                == #[trigger] rec_u64(t0, a0);
                    }
                }
                return Err(ProtocolError::MalformedEnvelope);
            },
        };
        let (t, a) = parsed;
        if t != MessageType::ExitResponse.tag() {
            return Err(ProtocolError::TypeMismatch);
        }
        if a > 0xffff {
            proof {
                assert forall|m: Self|
                    m.enc_ok() && m.decode_ok() && data@ == #[trigger] m.wire_bytes() implies false by {
                    assert(data@ == rec_u64(
                        MessageType::ExitResponse.spec_tag(),
                        m.status as u64,
                    ));
                }
            }
            proof {
                if Self::mistagged_form(data@) {
                    let (t0, a0) = choose|t0: u64, a0: u64|
                        t0 != MessageType::ExitResponse.spec_tag() && data@ == #[trigger] rec_u64(
                            t0,
                            a0,
                        );
                }
            }
            return Err(ProtocolError::MalformedEnvelope);
        }
        proof {
            if Self::mistagged_form(data@) {
                let (t0, a0) = choose|t0: u64, a0: u64|
                    t0 != MessageType::ExitResponse.spec_tag() && data@ == #[trigger] rec_u64(
                        t0,
                        a0,
                    );
            }
        }
        Ok(ExitResponse { status: a as u16 })
    }
}

impl Response for ExitResponse {
    open spec fn spec_get_type(&self) -> PayloadType {
        PayloadType::Exit
    }

    open spec fn run_allowed(&self) -> bool {
        true
    }

    open spec fn spec_run(&self) -> Result<u16, u16> {
        if self.status != 0 {
            Err(self.status)
        } else {
            Ok(0)
        }
    }

    fn get_type(&self) -> PayloadType {
        PayloadType::Exit
    }

    fn run(&self) -> (r: Result<u16, u16>) {
        if self.status != 0 {
            return Err(self.status);
        }
        Ok(self.status)
    }
}

/// Ask the daemon to shut down cleanly.
#[derive(Clone, Copy, Debug, PartialEq, Eq, Structural)]
pub struct ExitRequest {}

impl ExitRequest {
    pub fn new() -> ExitRequest {
        ExitRequest {  }
    }
}

impl Encode for ExitRequest {
    open spec fn wire_bytes(&self) -> Seq<u8> {
        rec_tag(MessageType::ExitRequest.spec_tag())
    }

    open spec fn enc_ok(&self) -> bool {
        true
    }

    fn as_bytes(&self) -> (r: Vec<u8>) {
        encode_rec_tag(MessageType::ExitRequest.tag())
    }
}

impl Decode for ExitRequest {
    open spec fn eqv(&self, other: &Self) -> bool {
        true
    }

    open spec fn wire_form(&self, data: Seq<u8>) -> bool {
        is_rec_tag_at(data, MessageType::ExitRequest.spec_tag())
    }

    open spec fn mistagged_form(data: Seq<u8>) -> bool {
        exists|t: u64| t != MessageType::ExitRequest.spec_tag() && data == #[trigger] rec_tag(t)
    }

    open spec fn decode_ok(&self) -> bool {
        true
    }

    fn from_bytes(data: &Vec<u8>) -> (r: Result<Self, ProtocolError>) {
        let parsed = match parse_rec_tag(data) {
            Some(p) => p,
            None => {
                proof {
                    if Self::mistagged_form(data@) {
                        let t0 = choose|t0: u64|
                            t0 != MessageType::ExitRequest.spec_tag() && data@ == #[trigger] rec_tag(
                                t0,
                            );
                    }
                }
                return Err(ProtocolError::MalformedEnvelope);
            },
        };
        if parsed != MessageType::ExitRequest.tag() {
            return Err(ProtocolError::TypeMismatch);
        }
        proof {
            if Self::mistagged_form(data@) {
                let t0 = choose|t0: u64|
                    t0 != MessageType::ExitRequest.spec_tag() && data@ == #[trigger] rec_tag(t0);
            }
        }
        Ok(ExitRequest {  })
    }
}

impl Request for ExitRequest {
    open spec fn spec_get_type(&self) -> PayloadType {
        PayloadType::Exit
    }

    open spec fn run_ensures(&self, r: Option<Payload>) -> bool {
        match r {
            Some(p) => p.payload_type == PayloadType::Exit && p.data@ == rec_u64(
                MessageType::ExitResponse.spec_tag(),
                0,
            ),
            None => false,
        }
    }

    fn get_type(&self) -> PayloadType {
        PayloadType::Exit
    }

    fn run(&self) -> (r: Option<Payload>) {
        Some(Payload::from_response(&ExitResponse::new(0)))
    }
}

} // verus!
