//! Command-line surface of the client, as plain data.
//!
//! The argument parser itself is unverified glue; it hands over one of
//! these values.  Host paths travel as strings here.

use vstd::prelude::*;

verus! {

/// A parsed invocation: the target VM and the requested operation.
pub struct Cli {
    /// VM name
    pub vm_name: String,
    pub command: Commands,
}

/// The operations the client offers, all scoped to a named VM.
pub enum Commands {
    /// Upload a file or folder to the guest.
    Upload { source: String, dest: String },
    /// Download a file or folder from the guest.
    Download { source: String, dest: String },
    /// Paste clipboard content to the guest.
    Paste { source: Option<String>, dest: String },
    /// Execute a command in the guest.
    Exec { command: String, args: Vec<String> },
}

} // verus!
