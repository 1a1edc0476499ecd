//! Remote-editing support library: workspace identity, tunnel session
//! supervision, and the typed message protocol spoken between the local
//! client daemon and the remote server daemon.

pub mod envelope;
pub mod errors;
pub mod messages;
pub mod requests;
pub mod structs;
pub mod utils;
pub mod wire;
