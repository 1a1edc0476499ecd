//! The canonical discriminant table of the wire protocol.

use vstd::prelude::*;

verus! {

/// One stable small integer is assigned to each message kind; the
/// discriminant travels as the first element of every encoded message.
#[derive(Clone, Copy, PartialEq, Eq, Debug, Structural)]
pub enum MessageType {
    IndexRequest,
    IndexResponse,
    LsRequest,
    LsResponse,
    ShellRequest,
    ShellResponse,
    ExitRequest,
    ExitResponse,
    InitRequest,
    InitResponse,
}

impl MessageType {
    /// The discriminant assigned to this kind.
    pub open spec fn spec_tag(self) -> u64 {
        match self {
            MessageType::IndexRequest => 0,
            MessageType::IndexResponse => 1,
            MessageType::LsRequest => 2,
            MessageType::LsResponse => 3,
            MessageType::ShellRequest => 4,
            MessageType::ShellResponse => 5,
            MessageType::ExitRequest => 6,
            MessageType::ExitResponse => 7,
            MessageType::InitRequest => 8,
            MessageType::InitResponse => 9,
        }
    }

    /// The kind a discriminant stands for, if any.
    pub open spec fn spec_of_tag(t: u64) -> Option<MessageType> {
        if t == 0 {
            Some(MessageType::IndexRequest)
        } else if t == 1 {
            Some(MessageType::IndexResponse)
        } else if t == 2 {
            Some(MessageType::LsRequest)
        } else if t == 3 {
            Some(MessageType::LsResponse)
        } else if t == 4 {
            Some(MessageType::ShellRequest)
        } else if t == 5 {
            Some(MessageType::ShellResponse)
        } else if t == 6 {
            Some(MessageType::ExitRequest)
        } else if t == 7 {
            Some(MessageType::ExitResponse)
        } else if t == 8 {
            Some(MessageType::InitRequest)
        } else if t == 9 {
            Some(MessageType::InitResponse)
        } else {
            None
        }
    }

    pub fn tag(self) -> (t: u64)
        ensures
            t == self.spec_tag(),
    {
        match self {
            MessageType::IndexRequest => 0,
            MessageType::IndexResponse => 1,
            MessageType::LsRequest => 2,
            MessageType::LsResponse => 3,
            MessageType::ShellRequest => 4,
            MessageType::ShellResponse => 5,
            MessageType::ExitRequest => 6,
            MessageType::ExitResponse => 7,
            MessageType::InitRequest => 8,
            MessageType::InitResponse => 9,
        }
    }

    pub fn of_tag(t: u64) -> (r: Option<MessageType>)
        ensures
            r == Self::spec_of_tag(t),
    {
        if t == 0 {
            Some(MessageType::IndexRequest)
        } else if t == 1 {
            Some(MessageType::IndexResponse)
        } else if t == 2 {
            Some(MessageType::LsRequest)
        } else if t == 3 {
            Some(MessageType::LsResponse)
        } else if t == 4 {
            Some(MessageType::ShellRequest)
        } else if t == 5 {
            Some(MessageType::ShellResponse)
        } else if t == 6 {
            Some(MessageType::ExitRequest)
        } else if t == 7 {
            Some(MessageType::ExitResponse)
        } else if t == 8 {
            Some(MessageType::InitRequest)
        } else if t == 9 {
            Some(MessageType::InitResponse)
        } else {
            None
        }
    }
}

/// The discriminant table is consistent: looking a kind's own tag back up
/// yields that kind, and distinct kinds never share a tag.
pub proof fn lemma_tag_table_consistent(a: MessageType, b: MessageType)
    ensures
        MessageType::spec_of_tag(a.spec_tag()) == Some(a),
        a.spec_tag() == b.spec_tag() ==> a == b,
{
}

/// What every typed message knows about itself: the kind it encodes as, and
/// whether the discriminant embedded in its own decoded form matches that
/// kind.
pub trait MessageTypeTrait: Sized {
    /// The kind this type is assigned.
    spec fn spec_messagetype() -> MessageType;

    /// The embedded discriminant agrees with the assigned kind.
    spec fn spec_is_valid(&self) -> bool;

    fn messagetype() -> (t: MessageType)
        ensures
            t == Self::spec_messagetype(),
    ;

    fn is_valid(&self) -> (b: bool)
        ensures
            b == self.spec_is_valid(),
    ;
}

} // verus!
