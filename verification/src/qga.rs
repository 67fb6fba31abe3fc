//! The guest agent client value and the exec-status record.

use vstd::prelude::*;
use crate::path;

verus! {

/// The observed status of a guest process launch: whether it has
/// exited, its exit code once it has, and its captured output streams,
/// still base64-encoded as they came off the wire.
pub struct ExecStatus {
    pub exited: bool,
    pub exitcode: Option<i32>,
    pub out_data: Option<String>,
    pub err_data: Option<String>,
}

/// A client bound to one VM.  It carries no other state; every request
/// is built, sent and interpreted per call, strictly one at a time.
pub struct QemuGuestAgent {
    pub vm_name: String,
}

impl QemuGuestAgent {
    pub fn new(vm_name: String) -> (r: Self)
        ensures
            r.vm_name == vm_name,
    {
        Self { vm_name }
    }

    /// A path is Windows-style exactly when its second character is the
    /// drive-letter separator `:`.
    pub fn is_windows_path(path: &str) -> (r: bool)
        ensures
            r == path::spec_is_windows(path@),
    {
        matches!(path::classify(path), path::PathKind::Windows)
    }

    /// Rewrite a path for embedding in a wire command: every `/` becomes
    /// `\` and then every `\` is doubled.
    pub fn normalize_windows_path(path: &str) -> (r: String)
        ensures
            r@ == path::spec_norm_windows(path@),
    {
        path::norm_windows(path)
    }

    /// The argument vector that carries a rendered wire command to the
    /// privileged request executor: the executor program and its
    /// arguments, ending in the target VM and the command itself.
    pub fn executor_argv(&self, json_cmd: &str) -> (r: Vec<String>)
        ensures
            r@.len() == 5,
            r@[0]@ == "sudo"@,
            r@[1]@ == "virsh"@,
            r@[2]@ == "qemu-agent-command"@,
            r@[3]@ == self.vm_name@,
            r@[4]@ == json_cmd@,
    {
        let mut argv: Vec<String> = Vec::new();
        argv.push(String::from_str("sudo"));
        argv.push(String::from_str("virsh"));
        argv.push(String::from_str("qemu-agent-command"));
        argv.push(self.vm_name.clone());
        argv.push(json_cmd.to_owned());
        argv
    }
}

} // verus!
