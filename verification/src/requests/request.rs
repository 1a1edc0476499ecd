//! The request and response interfaces of the local loopback channel.

use vstd::prelude::*;

use crate::requests::payload::Payload;
use crate::requests::types::PayloadType;

verus! {

/// A request decides; the daemon then acts.
///
/// `run` yields the response payload where the request can be answered from
/// the daemon's own state alone, and nothing where outside work (the host
/// shell) must run first; the daemon's dispatch then turns such a request
/// into an action and builds the response from the outcome.
pub trait Request {
    /// The loopback kind this request travels under.
    spec fn spec_get_type(&self) -> PayloadType;

    /// What `run` returns for this request.
    spec fn run_ensures(&self, r: Option<Payload>) -> bool;

    fn get_type(&self) -> (t: PayloadType)
        ensures
            t == self.spec_get_type(),
    ;

    fn run(&self) -> (r: Option<Payload>)
        ensures
            self.run_ensures(r),
    ;
}

/// A response runs on the client side: it reports the daemon's outcome as
/// an exit code. A caller shows any carried output before asking for the
/// code.
pub trait Response {
    /// The loopback kind this response travels under.
    spec fn spec_get_type(&self) -> PayloadType;

    /// The responses whose code can be reported without panicking.
    spec fn run_allowed(&self) -> bool;

    /// The exit code `run` reports.
    spec fn spec_run(&self) -> Result<u16, u16>;

    fn get_type(&self) -> (t: PayloadType)
        ensures
            t == self.spec_get_type(),
    ;

    fn run(&self) -> (r: Result<u16, u16>)
        requires
            self.run_allowed(),
        ensures
            r == self.spec_run(),
    ;
}

} // verus!
