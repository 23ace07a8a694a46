//! Classifying the outcomes of a PTY-attached subprocess.
//!
//! The caller spawns the process attached to a pseudo-terminal, streams its
//! output, and hands the plain outcomes (read errors' OS codes, the exit
//! status) to these functions, which decide what they mean.

use vstd::prelude::*;

use crate::errors::Error;

verus! {

/// Whether a failed read from the PTY is really the normal end of the
/// stream: the child closing its end of the pseudo-terminal surfaces as the
/// OS error `EIO` (code 5), and must not be treated as a failure.
pub fn pty_read_is_stream_end(raw_os_error: Option<i32>) -> (r: bool)
    ensures
        r == (raw_os_error == Some(5i32)),
{
    match raw_os_error {
        Option::Some(code) => code == 5,
        Option::None => false,
    }
}

/// Outcome of a finished subprocess: success exactly on exit code 0, and
/// otherwise a `SubprocessFailed` error carrying the exit code. A child
/// terminated without an exit code (`code` is `None`, e.g. by signal) is
/// reported as exit code 1, as the spawning caller would.
pub fn subprocess_result(success: bool, code: Option<i32>) -> (r: Result<(), Error>)
    ensures
        success ==> r == Result::<(), Error>::Ok(()),
        !success ==> r == Result::<(), Error>::Err(
            Error::SubprocessFailed {
                code: (match code {
                    Option::Some(c) => c as i64,
                    Option::None => 1,
                }),
            },
        ),
{
    if success {
        Result::Ok(())
    } else {
        let c: i64 = match code {
            Option::Some(c) => c as i64,
            Option::None => 1,
        };
        Result::Err(Error::SubprocessFailed { code: c })
    }
}

} // verus!
