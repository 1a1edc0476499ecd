//! The payload envelope of the local loopback channel, and the encode/decode
//! interface every wire-borne value offers.

use vstd::prelude::*;

use crate::envelope::bin_fits;
use crate::envelope::encode_rec_bin;
use crate::envelope::is_rec_bin_at;
use crate::envelope::parse_rec_bin;
use crate::envelope::rec_bin;
use crate::errors::ProtocolError;
use crate::requests::types::PayloadType;
use crate::wire::is_arr_hdr;
use crate::wire::is_bin_at;
use crate::wire::lemma_is_bin_at_fits;
use crate::wire::mp_u64;

verus! {

/// A value that can state, and produce, its canonical wire bytes.
pub trait Encode {
    /// The canonical bytes this value encodes to.
    spec fn wire_bytes(&self) -> Seq<u8>;

    /// The value's variable-length fields fit the wire's length fields.
    spec fn enc_ok(&self) -> bool;

    fn as_bytes(&self) -> (r: Vec<u8>)
        requires
            self.enc_ok(),
        ensures
            r@ == self.wire_bytes(),
    ;
}

/// A value that can be decoded back from wire bytes.
///
/// `from_bytes` accepts exactly the well-typed records of the implementing
/// kind: canonical bytes of a value decode to that value (third clause), a
/// well-formed record of the right shape whose discriminant is another one
/// is refused as a type confusion (second clause), and whatever is returned
/// is an accepted encoding of the input (first clause).
pub trait Decode: Encode + Sized {
    /// The two values are equal, field for field, up to views.
    spec fn eqv(&self, other: &Self) -> bool;

    /// `data` is some accepted (possibly non-compact) encoding of `self`.
    spec fn wire_form(&self, data: Seq<u8>) -> bool;

    /// `data` is a canonical record of this kind's shape, tagged with some
    /// other discriminant.
    spec fn mistagged_form(data: Seq<u8>) -> bool;

    /// What holds of every value this kind's decoder hands out.
    spec fn decode_ok(&self) -> bool;

    fn from_bytes(data: &Vec<u8>) -> (r: Result<Self, ProtocolError>)
        ensures
            match r {
                Ok(d) => d.wire_form(data@) && d.enc_ok() && d.decode_ok(),
                Err(_) => true,
            },
            Self::mistagged_form(data@) ==> r == Err::<Self, ProtocolError>(
                ProtocolError::TypeMismatch,
            ),
            forall|m: Self|
                m.enc_ok() && m.decode_ok() && data@ == #[trigger] m.wire_bytes() ==> match r {
                    Ok(d) => d.eqv(&m),
                    Err(_) => false,
                },
    ;
}

/// The envelope of the loopback channel: a payload kind and the opaque bytes
/// of the request or response it carries.
#[derive(Debug, PartialEq)]
pub struct Payload {
    pub payload_type: PayloadType,
    pub data: Vec<u8>,
}

impl Payload {
    /// The canonical bytes of this payload: the record `[kind, data]`.
    pub open spec fn wire_bytes(self) -> Seq<u8> {
        rec_bin(self.payload_type.spec_tag(), self.data@)
    }

    /// The carried bytes fit the wire's length field.
    pub open spec fn enc_ok(self) -> bool {
        bin_fits(self.data@)
    }

    /// `data` is some accepted encoding of this payload.
    pub open spec fn wire_form(self, data: Seq<u8>) -> bool {
        is_rec_bin_at(data, self.payload_type.spec_tag(), self.data@)
    }

    /// The payload kind this envelope carries.
    pub fn get_type(&self) -> (t: PayloadType)
        ensures
            t == self.payload_type,
    {
        self.payload_type
    }

    /// The carried bytes fit the wire's length field.
    pub fn fits(&self) -> (b: bool)
        ensures
            b == self.enc_ok(),
    {
        (self.data.len() as u64) < crate::wire::LEN32_LIMIT
    }

    /// Wrap an encoded request for the loopback wire.
    pub fn from_request<T: crate::requests::request::Request + Encode>(request: &T) -> (p: Payload)
        requires
            request.enc_ok(),
        ensures
            p.payload_type == request.spec_get_type(),
            p.data@ == request.wire_bytes(),
    {
        Payload { payload_type: request.get_type(), data: request.as_bytes() }
    }

    /// Wrap an encoded response for the loopback wire.
    pub fn from_response<T: crate::requests::request::Response + Encode>(response: &T) -> (p:
        Payload)
        requires
            response.enc_ok(),
        ensures
            p.payload_type == response.spec_get_type(),
            p.data@ == response.wire_bytes(),
    {
        Payload { payload_type: response.get_type(), data: response.as_bytes() }
    }

    pub fn as_bytes(&self) -> (r: Vec<u8>)
        requires
            self.enc_ok(),
        ensures
            r@ == self.wire_bytes(),
    {
        encode_rec_bin(self.payload_type.tag(), &self.data)
    }

    pub fn from_bytes(data: &Vec<u8>) -> (r: Result<Payload, ProtocolError>)
        ensures
            match r {
                Ok(d) => d.wire_form(data@) && d.enc_ok(),
                Err(_) => true,
            },
            forall|m: Payload|
                m.enc_ok() && data@ == #[trigger] m.wire_bytes() ==> match r {
                    Ok(d) => d.payload_type == m.payload_type && d.data@ == m.data@,
                    Err(_) => false,
                },
            forall|t: u64, b: Seq<u8>|
                bin_fits(b) && PayloadType::spec_of_tag(t) is Some && data@ == #[trigger] rec_bin(
                    t,
                    b,
                ) ==> match r {
                    Ok(d) => Some(d.payload_type) == PayloadType::spec_of_tag(t) && d.data@ == b,
                    Err(_) => false,
                },
            forall|t: u64, b: Seq<u8>|
                bin_fits(b) && PayloadType::spec_of_tag(t) is None && data@ == #[trigger] rec_bin(
                    t,
                    b,
                ) ==> r == Err::<Payload, ProtocolError>(ProtocolError::UnsupportedMessageType),
    {
        let parsed = match parse_rec_bin(data) {
            Some(p) => p,
            None => {
                return Err(ProtocolError::MalformedEnvelope);
            },
        };
        let (t, b) = parsed;
        match PayloadType::of_tag(t) {
            Some(pt) => {
                proof {
                    let (h, bp) = choose|h: Seq<u8>, bp: Seq<u8>|
                        data@ == h + mp_u64(t) + bp && is_arr_hdr(h, 2) && is_bin_at(bp, b@);
                    lemma_is_bin_at_fits(bp, b@);
                }
                Ok(Payload { payload_type: pt, data: b })
            },
            None => Err(ProtocolError::UnsupportedMessageType),
        }
    }
}

/// Law: the wire encoding of a payload determines it: the same bytes carry
/// the same kind and the same body. With `as_bytes` and `from_bytes`'s
/// contracts this gives the round trip: a payload encoded and decoded is
/// the payload that was sent.
pub proof fn lemma_payload_encoding_injective(p1: Payload, p2: Payload)
    requires
        p1.enc_ok(),
        p2.enc_ok(),
        p1.wire_bytes() == p2.wire_bytes(),
    ensures
        p1.payload_type == p2.payload_type,
        p1.data@ == p2.data@,
{
    crate::envelope::lemma_rec_bin_inj(
        p1.payload_type.spec_tag(),
        p1.data@,
        p2.payload_type.spec_tag(),
        p2.data@,
    );
}

} // verus!
