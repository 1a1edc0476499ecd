//! Supporting machinery: workspace identity, the tunnel session supervisor,
//! the shared stop flag, and host-tool configuration.

pub mod event;
pub mod shutil;
pub mod ssh;
pub mod stcp;
pub mod workspace;
