//! The error taxonomy of the library.

use vstd::prelude::*;

verus! {

/// Errors local to one connection: the peer sent bytes the protocol cannot
/// accept. They are logged and the connection is dropped; they never stop a
/// daemon.
#[derive(Clone, Copy, PartialEq, Eq, Debug, Structural)]
pub enum ProtocolError {
    /// The bytes do not form a well-typed array whose first element is an
    /// unsigned integer discriminant, with the fields its kind demands.
    MalformedEnvelope,
    /// The discriminant maps to no known message kind.
    UnsupportedMessageType,
    /// The discriminant embedded in the decoded form is a known kind other
    /// than the one the receiver asked for.
    TypeMismatch,
}

/// Errors of the tunnel session supervisor.
#[derive(Clone, Copy, PartialEq, Eq, Debug, Structural)]
pub enum TunnelError {
    /// The spawn of the tunnel process failed synchronously.
    SpawnError,
    /// The restart cap was exceeded: the session is stopped for good.
    TunnelFatal,
}

/// Errors of the workspace identity registry.
#[derive(Clone, Copy, PartialEq, Eq, Debug, Structural)]
pub enum IdentityError {
    /// The registry directory or the address file could not be read or
    /// written.
    IdentityIOError,
    /// A persisted daemon record names a different host or workspace than
    /// the one being resolved.
    RecordMismatch,
}

} // verus!
