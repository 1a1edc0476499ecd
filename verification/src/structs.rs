//! The two daemon roles: the local client daemon and the remote server
//! daemon, each as the decision core its accept loop runs on.

pub mod client;
pub mod server;
