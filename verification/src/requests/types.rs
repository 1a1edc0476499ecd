//! The discriminants of the local loopback channel.

use vstd::prelude::*;

verus! {

/// The payload kinds a local client can send to its daemon.
#[derive(Clone, Copy, PartialEq, Eq, Debug, Structural)]
pub enum PayloadType {
    Shell,
    Exit,
    Msg,
}

impl PayloadType {
    /// The discriminant assigned to this payload kind.
    pub open spec fn spec_tag(self) -> u64 {
        match self {
            PayloadType::Shell => 0,
            PayloadType::Exit => 1,
            PayloadType::Msg => 2,
        }
    }

    /// The payload kind a discriminant stands for, if any.
    pub open spec fn spec_of_tag(t: u64) -> Option<PayloadType> {
        if t == 0 {
            Some(PayloadType::Shell)
        } else if t == 1 {
            Some(PayloadType::Exit)
        } else if t == 2 {
            Some(PayloadType::Msg)
        } else {
            None
        }
    }

    pub fn tag(self) -> (t: u64)
        ensures
            t == self.spec_tag(),
    {
        match self {
            PayloadType::Shell => 0,
            PayloadType::Exit => 1,
            PayloadType::Msg => 2,
        }
    }

    pub fn of_tag(t: u64) -> (r: Option<PayloadType>)
        ensures
            r == Self::spec_of_tag(t),
    {
        if t == 0 {
            Some(PayloadType::Shell)
        } else if t == 1 {
            Some(PayloadType::Exit)
        } else if t == 2 {
            Some(PayloadType::Msg)
        } else {
            None
        }
    }
}

} // verus!
