//! The typed messages exchanged between daemons over the tunnel.

pub mod index;
pub mod ls;
pub mod messagetype;
