pub mod arm_core;
pub mod mcore;
pub mod trapper;

use vstd::prelude::*;

verus! {

/// Failure of a call into the emulator core.
#[derive(Debug, Clone, Copy, PartialEq, Eq)]
pub enum Error {
    /// The named core call reported failure.
    CallFailed(&'static str),
}

impl Error {
    /// The error's text: `call to <call> failed`.
    pub fn message(&self) -> (s: String)
        ensures
            match *self {
                Error::CallFailed(call) => s@ == "call to "@ + call@ + " failed"@,
            },
    {
        match *self {
            Error::CallFailed(call) => {
                let mut s = String::from_str("call to ");
                s.append(call);
                s.append(" failed");
                s
            },
        }
    }
}

/// Turns the success flag of the named core call into a `Result`.
pub fn call_status(succeeded: bool, call: &'static str) -> (r: Result<(), Error>)
    ensures
        succeeded ==> r == Ok::<(), Error>(()),
        !succeeded ==> r == Err::<(), Error>(Error::CallFailed(call)),
{
    if succeeded {
        Ok(())
    } else {
        Err(Error::CallFailed(call))
    }
}

} // verus!
