//! The workspace session's own decisions: which mode to run, what a failed probe reports,
//! and what a compatible-mode invocation's end means.
use vstd::prelude::*;
use crate::decimal::{decimal, u64_to_decimal};
use crate::text::{is_blank, trim, trimmed};

verus! {

/// The two ways a workspace session runs its tool.
#[derive(Clone, Copy, Debug, PartialEq, Eq, Structural)]
pub enum SessionMode {
    /// A long-lived process speaking JSON-RPC over its standard streams.
    JsonRpc,
    /// One pseudo-terminal invocation per turn.
    CompatiblePty,
}

/// The mode for a binary: RPC where its `app-server --help` probe succeeded in time.
pub fn select_mode(app_server_probe_ok: bool) -> (r: SessionMode)
    ensures
        r == if app_server_probe_ok { SessionMode::JsonRpc } else { SessionMode::CompatiblePty },
{
    if app_server_probe_ok {
        SessionMode::JsonRpc
    } else {
        SessionMode::CompatiblePty
    }
}

/// How checking that the selected binary starts can fail.
#[derive(Debug)]
pub enum ProbeFailure {
    NotFound,
    /// Another start failure, with the system's message.
    Failed(String),
    TimedOut,
}

pub open spec fn probe_message(f: ProbeFailure) -> Seq<char> {
    match f {
        ProbeFailure::NotFound => "Selected CLI was not found. Check the configured binary path."@,
        ProbeFailure::Failed(m) => "Failed to start selected CLI: "@ + m@,
        ProbeFailure::TimedOut => "Timed out while checking selected CLI availability."@,
    }
}

/// What a failed availability check reports to the user.
pub fn probe_failure_message(f: ProbeFailure) -> (r: String)
    ensures
        r@ == probe_message(f),
{
    match f {
        ProbeFailure::NotFound => String::from_str("Selected CLI was not found. Check the configured binary path."),
        ProbeFailure::Failed(m) => String::from_str("Failed to start selected CLI: ").concat(m.as_str()),
        ProbeFailure::TimedOut => String::from_str("Timed out while checking selected CLI availability."),
    }
}

/// What a compatible-mode invocation's end means: its output where it succeeded or was
/// interrupted; else an error with its exit code and, where it printed anything, its
/// trimmed output.
pub open spec fn exit_outcome(success: bool, interrupted: bool, code: u32, output: Seq<char>) -> Result<Seq<char>, Seq<char>> {
    if success || interrupted {
        Ok(output)
    } else if is_blank(output) {
        Err("Compatible CLI exited with code "@ + decimal(code as nat))
    } else {
        Err("Compatible CLI exited with code "@ + decimal(code as nat) + ": "@ + trimmed(output))
    }
}

/// What a compatible-mode invocation's end means.
pub fn compatible_exit_result(success: bool, interrupted: bool, code: u32, output: String) -> (r: Result<String, String>)
    ensures
        match (r, exit_outcome(success, interrupted, code, output@)) {
            (Ok(a), Ok(b)) => a@ == b,
            (Err(a), Err(b)) => a@ == b,
            _ => false,
        },
{
    if success || interrupted {
        return Ok(output);
    }
    let prefix = String::from_str("Compatible CLI exited with code ").concat(u64_to_decimal(code as u64).as_str());
    let summary = trim(output.as_str());
    if summary.unicode_len() == 0 {
        Err(prefix)
    } else {
        Err(prefix.concat(": ").concat(summary))
    }
}

} // verus!
