//! Tests that drive a real traced child: a `sleep` process is spawned,
//! attached to, and then controlled entirely through the library.

use deet::breakpoint::BreakpointTable;
use deet::debugger::{Debugger, SessionState};
use deet::inferior::Inferior;
use deet::status::{DebugError, Status, TraceError};
use deet::symbols::SymbolTable;

fn spawn_stopped_sleep(seconds: &core::ffi::CStr) -> i32 {
    let actions = nix::spawn::PosixSpawnFileActions::init().unwrap();
    let attr = nix::spawn::PosixSpawnAttr::init().unwrap();
    let args = [c"sleep", seconds];
    let env: [&core::ffi::CStr; 0] = [];
    let pid = nix::spawn::posix_spawn("/bin/sleep", &actions, &attr, &args, &env).unwrap();
    nix::sys::ptrace::attach(pid).unwrap();
    pid.as_raw()
}

fn run_until_terminal(dbg: &mut Debugger, pid: i32) -> Status {
    let mut status = dbg.run_with(pid).unwrap();
    while matches!(status, Status::Stopped(_, _)) {
        assert_eq!(dbg.state(), SessionState::Running);
        status = dbg.continue_execution().unwrap();
    }
    status
}

#[test]
fn test_run_to_exit() {
    let mut dbg = Debugger::new("/bin/sleep", SymbolTable::new());
    let pid = spawn_stopped_sleep(c"1");
    let status = run_until_terminal(&mut dbg, pid);
    assert_eq!(status, Status::Exited(0));
    assert_eq!(dbg.state(), SessionState::NoProcess);
    assert_eq!(dbg.continue_execution(), Err(DebugError::NoProcess));
}

#[test]
fn test_run_with_foreign_pid_fails() {
    let mut dbg = Debugger::new("/bin/sleep", SymbolTable::new());
    assert_eq!(dbg.run_with(1), Err(DebugError::SpawnFailed));
    assert_eq!(dbg.state(), SessionState::NoProcess);
}

#[test]
fn test_consecutive_runs_leave_one_process() {
    let mut dbg = Debugger::new("/bin/sleep", SymbolTable::new());
    for _ in 0..2 {
        assert_eq!(dbg.kill(), Ok(None));
        assert_eq!(dbg.state(), SessionState::NoProcess);
        let pid = spawn_stopped_sleep(c"1");
        let status = run_until_terminal(&mut dbg, pid);
        assert_eq!(status, Status::Exited(0));
        assert_eq!(dbg.state(), SessionState::NoProcess);
        assert_eq!(dbg.current_pid(), None);
    }
}

#[test]
fn test_inferior_kill() {
    let pid = spawn_stopped_sleep(c"30");
    let mut table = BreakpointTable::new();
    let mut inf = Inferior::new(pid, &mut table).unwrap();
    assert_eq!(inf.pid(), pid);
    let status = inf.kill().unwrap();
    assert_eq!(status, Status::Signaled(9));
    assert!(matches!(inf.kill(), Err(TraceError::Os(_))));
}

#[test]
fn test_breakpoints_survive_a_run() {
    let mut dbg = Debugger::new("/bin/sleep", SymbolTable::new());
    assert!(dbg.set_breakpoint(0x10));
    assert!(dbg.has_breakpoint(0x10));
    let pid = spawn_stopped_sleep(c"1");
    let status = run_until_terminal(&mut dbg, pid);
    assert_eq!(status, Status::Exited(0));
    assert!(dbg.has_breakpoint(0x10));
    assert_eq!(dbg.breakpoint_count(), 1);
}
