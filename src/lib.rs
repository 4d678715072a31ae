//! A file-transfer service over a line-oriented protocol: a registry of
//! stored files with advisory locks, the command codec, the response encoder,
//! and the per-connection session state machine that ties them together.
pub mod bytes;
pub mod file_manager;
pub mod command;
pub mod response;
pub mod session;
