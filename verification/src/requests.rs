//! The request/response pairs spoken on the local loopback channel, and the
//! payload envelope that carries them.

pub mod dispatch;
pub mod exit_request;
pub mod init_request;
pub mod msg_request;
pub mod payload;
pub mod shell_request;
pub mod request;
pub mod types;
