//! Trusted boundary to the OS trace interface.
//!
//! Each function here wraps one operation of the `nix` crate's ptrace /
//! wait / signal bindings, reduced to plain values: pids and signals as
//! `i32`, addresses as `usize`, memory words as `u64`, errors as the raw
//! errno.  What a call returns depends on the traced child's state, so the
//! contracts promise only what holds of every outcome; the verified logic
//! above this module takes the returned values as inputs.

use vstd::prelude::*;

verus! {

/// Signal numbers of the standard POSIX signals, the only ones this
/// debugger forwards to the target.
pub open spec fn valid_signal(s: i32) -> bool {
    1 <= s <= 31
}

/// One wait outcome on the traced child, reduced to plain values.
#[derive(Clone, Copy, PartialEq, Eq, Structural, Debug)]
pub enum WaitOutcome {
    /// The child exited with this code.
    Exited(i32),
    /// The child was killed by this signal.
    Signaled(i32),
    /// The child stopped under this signal.
    Stopped(i32),
    /// Any other wait status (continued, still alive, ...), which this
    /// debugger never asks for.
    Other,
}

/// Relies on nix::sys::ptrace::read (PTRACE_PEEKDATA): on success the
/// result is the machine word of the target's memory at `addr`.
#[verifier::external_body]
pub(crate) fn peek_word(pid: i32, addr: usize) -> (r: Result<u64, i32>) {
    match nix::sys::ptrace::read(
        nix::unistd::Pid::from_raw(pid),
        addr as nix::sys::ptrace::AddressType,
    ) {
        Ok(w) => Ok(w as u64),
        Err(e) => Err(e as i32),
    }
}

/// Relies on nix::sys::ptrace::write (PTRACE_POKEDATA): on success the
/// word `word` replaces the target's memory word at `addr`.
#[verifier::external_body]
pub(crate) fn poke_word(pid: i32, addr: usize, word: u64) -> (r: Result<(), i32>) {
    match nix::sys::ptrace::write(
        nix::unistd::Pid::from_raw(pid),
        addr as nix::sys::ptrace::AddressType,
        word as nix::libc::c_long,
    ) {
        Ok(()) => Ok(()),
        Err(e) => Err(e as i32),
    }
}

/// Relies on nix::sys::ptrace::getregs (PTRACE_GETREGS): on success the
/// pair is the stopped child's program counter and frame pointer.
#[verifier::external_body]
pub(crate) fn read_pc_fp(pid: i32) -> (r: Result<(u64, u64), i32>) {
    match nix::sys::ptrace::getregs(nix::unistd::Pid::from_raw(pid)) {
        Ok(regs) => Ok((regs.rip, regs.rbp)),
        Err(e) => Err(e as i32),
    }
}

/// Relies on nix::sys::ptrace::getregs and nix::sys::ptrace::setregs
/// (PTRACE_GETREGS / PTRACE_SETREGS): on success the stopped child's
/// program counter is `pc` and its other registers are unchanged.
#[verifier::external_body]
pub(crate) fn write_pc(pid: i32, pc: u64) -> (r: Result<(), i32>) {
    let p = nix::unistd::Pid::from_raw(pid);
    match nix::sys::ptrace::getregs(p) {
        Ok(mut regs) => {
            regs.rip = pc;
            match nix::sys::ptrace::setregs(p, regs) {
                Ok(()) => Ok(()),
                Err(e) => Err(e as i32),
            }
        },
        Err(e) => Err(e as i32),
    }
}

/// Relies on nix::sys::ptrace::step (PTRACE_SINGLESTEP): on success the
/// stopped child executes one instruction, with `sig` delivered if given.
#[verifier::external_body]
pub(crate) fn step_target(pid: i32, sig: Option<i32>) -> (r: Result<(), i32>)
    requires
        sig matches Some(s) ==> valid_signal(s),
{
    let s = sig.and_then(|v| nix::sys::signal::Signal::try_from(v).ok());
    match nix::sys::ptrace::step(nix::unistd::Pid::from_raw(pid), s) {
        Ok(()) => Ok(()),
        Err(e) => Err(e as i32),
    }
}

/// Relies on nix::sys::ptrace::cont (PTRACE_CONT): on success the stopped
/// child resumes full execution, with `sig` delivered if given.
#[verifier::external_body]
pub(crate) fn cont_target(pid: i32, sig: Option<i32>) -> (r: Result<(), i32>)
    requires
        sig matches Some(s) ==> valid_signal(s),
{
    let s = sig.and_then(|v| nix::sys::signal::Signal::try_from(v).ok());
    match nix::sys::ptrace::cont(nix::unistd::Pid::from_raw(pid), s) {
        Ok(()) => Ok(()),
        Err(e) => Err(e as i32),
    }
}

/// Relies on nix::sys::wait::waitpid: blocks until the child changes state
/// and reports that state.  Signals reported by the OS are the standard
/// ones, which is all the contract claims of the numbers.
#[verifier::external_body]
pub(crate) fn wait_target(pid: i32) -> (r: Result<WaitOutcome, i32>)
    ensures
        r matches Ok(WaitOutcome::Signaled(s)) ==> valid_signal(s),
        r matches Ok(WaitOutcome::Stopped(s)) ==> valid_signal(s),
{
    match nix::sys::wait::waitpid(nix::unistd::Pid::from_raw(pid), None) {
        Ok(nix::sys::wait::WaitStatus::Exited(_, code)) => Ok(WaitOutcome::Exited(code)),
        Ok(nix::sys::wait::WaitStatus::Signaled(_, sig, _)) => Ok(
            WaitOutcome::Signaled(sig as i32),
        ),
        Ok(nix::sys::wait::WaitStatus::Stopped(_, sig)) => Ok(WaitOutcome::Stopped(sig as i32)),
        Ok(_) => Ok(WaitOutcome::Other),
        Err(e) => Err(e as i32),
    }
}

/// Relies on nix::sys::signal::kill with SIGKILL: on success the child has
/// been sent the uncatchable kill signal.
#[verifier::external_body]
pub(crate) fn kill_target(pid: i32) -> (r: Result<(), i32>) {
    match nix::sys::signal::kill(
        nix::unistd::Pid::from_raw(pid),
        nix::sys::signal::Signal::SIGKILL,
    ) {
        Ok(()) => Ok(()),
        Err(e) => Err(e as i32),
    }
}

} // verus!
