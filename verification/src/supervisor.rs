//! The process supervisor's bookkeeping: the well-known control and
//! process-id paths, what the pid file holds, and which process a
//! forced kill may signal.
//!
//! The supervisor is a fallback: it is consulted only when the control
//! socket cannot be reached, and its own failures are swallowed.

use vstd::prelude::*;
use vstd::string::StringExecFns;

use crate::parse::{parse_i32, spec_parse_i32};
use crate::text::{spec_trim, spec_udec, trim_str, u64_to_decimal};

verus! {

/// Path of the player's control socket.
pub fn mpv_socket() -> (r: String)
    ensures
        r@ == "/tmp/ytm-mpv.sock"@,
{
    String::from_str("/tmp/ytm-mpv.sock")
}

/// Path of the persisted process-id file.
pub fn mpv_pid_file() -> (r: String)
    ensures
        r@ == "/tmp/ytm-mpv.pid"@,
{
    String::from_str("/tmp/ytm-mpv.pid")
}

/// What `record` writes for a spawned player: its decimal process id,
/// overwriting any prior value.
pub fn pid_file_contents(pid: u32) -> (r: String)
    ensures
        r@ == spec_udec(pid as nat),
{
    u64_to_decimal(pid as u64)
}

/// The process a forced kill signals, from what the pid file held.
/// An absent file, or contents that do not trim to a decimal process
/// id, give no target: the kill is then a silent no-op — success,
/// never an error.
pub fn kill_target(contents: &Option<String>) -> (r: Option<i32>)
    ensures
        match contents {
            None => r is None,
            Some(c) => r == spec_parse_i32(spec_trim(c@)),
        },
{
    match contents {
        None => None,
        Some(c) => parse_i32(trim_str(c.as_str())),
    }
}

} // verus!
