//! What the supervisor of the debugger decides when it kills the child at
//! the end of a session: whether a failure to kill it is worth a word.
use vstd::prelude::*;
use nix::errno::Errno;

verus! {

/// The error code of the operating system for "no such process".
pub const ESRCH: i32 = 3;

/// The number of an error: what the cast `Errno as i32` gives, which is the
/// error code of the operating system that the `Errno` of nix stands for.
pub uninterp spec fn errno_number(e: Errno) -> i32;

/// `Errno as i32`: the error code of the operating system that an `Errno`
/// of nix stands for. The number depends on the error alone; which number
/// it is is not claimed here.
#[verifier::external_body]
fn errno_code(e: Errno) -> (r: i32)
    ensures
        r == errno_number(e),
{
    e as i32
}

/// Whether a failure to kill the child can be passed over: it can where
/// the child is gone already.
pub fn is_benign(code: i32) -> (r: bool)
    ensures
        r == (code == ESRCH),
{
    code == ESRCH
}

/// What is left to report of a kill, given whether its error can be passed
/// over: the error of a kill that failed for a reason that cannot.
pub fn kill_verdict(killed: Result<(), Errno>, benign: bool) -> (r: Option<Errno>)
    ensures
        r == (match killed {
            Ok(_) => None,
            Err(e) => if benign {
                None
            } else {
                Some(e)
            },
        }),
{
    match killed {
        Ok(_) => None,
        Err(e) => if benign {
            None
        } else {
            Some(e)
        },
    }
}

/// What is left to report after the child has been killed at the end of a
/// session. `killed` is what the kill gave. A kill that went well leaves
/// nothing to report, and neither does one that failed because the child
/// was gone already; any other failure leaves its error.
pub fn kill_report(killed: Result<(), Errno>) -> (r: Option<Errno>)
    ensures
        r == (match killed {
            Ok(_) => None,
            Err(e) => if errno_number(e) == ESRCH {
                None
            } else {
                Some(e)
            },
        }),
{
    match killed {
        Ok(_) => None,
        Err(e) => kill_verdict(killed, is_benign(errno_code(e))),
    }
}

} // verus!
