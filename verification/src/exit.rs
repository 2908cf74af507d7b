//! The decisions of the loop that waits for the child to exit.

use vstd::prelude::*;
use crate::error::PtyError;

verus! {

/// The pattern text a timeout while waiting for the exit reports.
pub open spec fn child_exit_label() -> Seq<char> {
    "<child exit>"@
}

/// One poll of the exit-wait loop, given what checking the child reported:
/// `Ok(Some(code))` once it exited with `code`, `Ok(None)` while it runs,
/// `Err(message)` when the check failed.
///
/// An exit is answered with its code, a failed check with `Wait`, and a
/// running child, once the deadline has passed, with `Timeout` carrying
/// `timeout`. `None` means keep waiting.
pub fn exit_step(
    status: Result<Option<u32>, String>,
    timeout: std::time::Duration,
    deadline_passed: bool,
) -> (r: Option<Result<u32, PtyError>>)
    ensures
        match status {
            Ok(Some(code)) => r matches Some(Ok(c)) && c == code,
            Err(message) => r matches Some(Err(PtyError::Wait(m))) && m@ == message@,
            Ok(None) => if deadline_passed {
                r matches Some(Err(PtyError::Timeout(t, p))) && t == timeout && p@
                    == child_exit_label()
            } else {
                r is None
            },
        },
{
    match status {
        Ok(Some(code)) => Some(Ok(code)),
        Err(message) => Some(Err(PtyError::Wait(message))),
        Ok(None) => {
            if deadline_passed {
                Some(Err(PtyError::Timeout(timeout, "<child exit>".to_owned())))
            } else {
                None
            }
        },
    }
}

} // verus!
