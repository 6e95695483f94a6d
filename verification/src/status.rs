//! Execution statuses and structured errors.

use vstd::prelude::*;

verus! {

/// Result of one wait on the traced child: it stopped under a signal at a
/// program counter, exited with a code, or was killed by a signal.  The
/// terminal variants (`Exited`, `Signaled`) invalidate the process handle.
#[derive(Clone, Copy, PartialEq, Eq, Structural, Debug)]
pub enum Status {
    /// The child stopped; carries the stopping signal and the program
    /// counter it is stopped at.
    Stopped(i32, usize),
    /// The child exited normally; carries the exit code.
    Exited(i32),
    /// The child was terminated by a signal; carries that signal.
    Signaled(i32),
}

/// A trace operation failed.
#[derive(Clone, Copy, PartialEq, Eq, Structural, Debug)]
pub enum TraceError {
    /// The OS trace interface rejected the request; carries the errno.
    Os(i32),
    /// A wait reported a state this debugger does not drive the child into
    /// (for example a stop it did not request).
    UnexpectedStatus,
}

/// A session-level failure, reported to the user and never fatal.
#[derive(Clone, Copy, PartialEq, Eq, Structural, Debug)]
pub enum DebugError {
    /// The command needs a live process and there is none.
    NoProcess,
    /// The fresh child could not be brought to its initial stop.
    SpawnFailed,
    /// A trace call on the live process failed.
    Trace(TraceError),
}

} // verus!
