//! Verified core of a guest-agent file-transfer client.
//!
//! The library covers the protocol logic of a command-line client that
//! drives a hypervisor's in-guest agent channel: building wire commands,
//! interpreting replies, bounded polling of asynchronous guest processes,
//! chunked file transfer, path normalization for the two guest path
//! syntaxes, and planning of recursive directory transfers.  The
//! privileged request executor itself (a host-side subprocess) is an
//! external collaborator and is driven by unverified glue around this
//! library.

pub mod b64;
pub mod chunk;
pub mod cli;
pub mod colors;
pub mod json;
pub mod path;
pub mod poll;
pub mod qga;
pub mod transfer;
pub mod wire;
