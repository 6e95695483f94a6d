//! The session orchestrator: owns the breakpoint table (which outlives any
//! single traced process), at most one process controller, and the symbol
//! table, and turns user-level intents — run, continue, backtrace, set a
//! breakpoint, quit — into process-controller operations.

use crate::breakpoint::{BpState, BreakpointTable};
use crate::inferior::Inferior;
use crate::parse;
use crate::status::{DebugError, Status};
use crate::symbols::{SymEntry, SymbolTable, first_line_from, first_name_from};
use crate::walk::{MAX_FRAMES, StackFrame};
use vstd::prelude::*;
use vstd::string::StringSliceAdditionalSpecFns;

verus! {

/// The two session states: no live process, or exactly one.
#[derive(Clone, Copy, PartialEq, Eq, Structural, Debug)]
pub enum SessionState {
    /// No process is being traced.
    NoProcess,
    /// One process is live under trace.
    Running,
}

/// Why a breakpoint target could not be turned into an address.
#[derive(Clone, Copy, PartialEq, Eq, Structural, Debug)]
pub enum ResolveError {
    /// A `*`-prefixed target was not a valid hexadecimal address.
    BadAddress,
    /// A decimal line number had no address in the symbol table.
    UnknownLine,
    /// The target named a function the symbol table does not know.
    UnknownFunction,
}

/// What a breakpoint target resolves to: a `*`-prefixed hexadecimal
/// address as itself; a decimal number as a source line looked up in the
/// symbol table; anything else as a function name looked up there.
pub open spec fn spec_resolve_target(b: Seq<u8>, c: Seq<char>, syms: Seq<SymEntry>) -> Result<
    usize,
    ResolveError,
> {
    if b.len() > 0 && b[0] == 42 {
        match parse::spec_parse_address(b.subrange(1, b.len() as int)) {
            Some(a) => Ok(a),
            None => Err(ResolveError::BadAddress),
        }
    } else {
        match parse::spec_parse_decimal(b) {
            Some(line) => match first_line_from(syms, line, 0) {
                Some(j) => Ok(syms[j].low),
                None => Err(ResolveError::UnknownLine),
            },
            None => match first_name_from(syms, c, 0) {
                Some(j) => Ok(syms[j].low),
                None => Err(ResolveError::UnknownFunction),
            },
        }
    }
}

/// One debug session.
pub struct Debugger {
    target: String,
    inferior: Option<Inferior>,
    symbols: SymbolTable,
    breakpoints: BreakpointTable,
}

impl Debugger {
    /// Well-formedness of the session's breakpoint table.
    pub closed spec fn wf(&self) -> bool {
        self.breakpoints.wf()
    }

    /// Whether a process is live.
    pub closed spec fn has_process(&self) -> bool {
        self.inferior is Some
    }

    /// Pid of the live process, if one is.
    pub closed spec fn live_pid(&self) -> Option<i32> {
        match self.inferior {
            Some(inf) => Some(inf.id()),
            None => None,
        }
    }

    /// The session's breakpoints.
    pub closed spec fn bps(&self) -> Map<usize, BpState> {
        self.breakpoints@
    }

    /// The registered breakpoint addresses, in registration order.
    pub closed spec fn bp_addrs(&self) -> Seq<usize> {
        self.breakpoints.addr_seq()
    }

    /// The session's symbol table.
    pub closed spec fn syms(&self) -> Seq<SymEntry> {
        self.symbols@
    }

    /// Path of the target executable.
    pub closed spec fn spec_target(&self) -> Seq<char> {
        self.target@
    }

    /// Initializes a session for `target` with the symbol information the
    /// resolver produced for it: no process, no breakpoints.
    pub fn new(target: &str, symbols: SymbolTable) -> (r: Debugger)
        ensures
            r.wf(),
            !r.has_process(),
            r.bps() == Map::<usize, BpState>::empty(),
            r.syms() == symbols@,
            r.spec_target() == target@,
    {
        Debugger {
            target: target.to_owned(),
            inferior: None,
            symbols,
            breakpoints: BreakpointTable::new(),
        }
    }

    /// Path of the target executable.
    pub fn target(&self) -> (r: &String)
        ensures
            r@ == self.spec_target(),
    {
        &self.target
    }

    /// The session's symbol table, for rendering addresses.
    pub fn symbols(&self) -> (r: &SymbolTable)
        ensures
            r@ == self.syms(),
    {
        &self.symbols
    }

    /// Which state the session is in.
    pub fn state(&self) -> (r: SessionState)
        ensures
            r == (if self.has_process() {
                SessionState::Running
            } else {
                SessionState::NoProcess
            }),
    {
        if self.inferior.is_some() {
            SessionState::Running
        } else {
            SessionState::NoProcess
        }
    }

    /// Pid of the live process, if one is.
    pub fn current_pid(&self) -> (r: Option<i32>)
        ensures
            r == self.live_pid(),
    {
        match &self.inferior {
            Some(inf) => Some(inf.pid()),
            None => None,
        }
    }

    /// Whether a breakpoint is registered at `addr`.
    pub fn has_breakpoint(&self, addr: usize) -> (r: bool)
        requires
            self.wf(),
        ensures
            r == self.bps().contains_key(addr),
    {
        self.breakpoints.contains(addr)
    }

    /// How many breakpoints are registered.
    pub fn breakpoint_count(&self) -> (r: usize)
        ensures
            r == self.bp_addrs().len(),
    {
        self.breakpoints.count()
    }

    /// Turns a user-entered breakpoint target — `*<hex-address>`,
    /// `<decimal-line>`, or `<function-name>` — into an instruction
    /// address, or says why it cannot.
    pub fn resolve_target(&self, t: &str) -> (r: Result<usize, ResolveError>)
        ensures
            r == spec_resolve_target(t.spec_bytes(), t@, self.syms()),
    {
        let bytes = t.as_bytes();
        if bytes.len() > 0 && bytes[0] == 42 {
            match parse::parse_address_tail(t, 1) {
                Some(a) => Ok(a),
                None => Err(ResolveError::BadAddress),
            }
        } else {
            match parse::parse_decimal(t) {
                Some(line) => match self.symbols.resolve_line(line) {
                    Some(a) => Ok(a),
                    None => Err(ResolveError::UnknownLine),
                },
                None => {
                    let name: String = t.to_owned();
                    match self.symbols.resolve_function(&name) {
                        Some(a) => Ok(a),
                        None => Err(ResolveError::UnknownFunction),
                    }
                },
            }
        }
    }

    /// Registers a breakpoint at `addr`.  With a live process the trap is
    /// installed immediately, so it takes effect without a restart; an
    /// invalid address is reported and leaves the table untouched.  With no
    /// process the address is recorded as pending, to be materialized on
    /// the next launch.
    pub fn set_breakpoint(&mut self, addr: usize) -> (r: bool)
        requires
            old(self).wf(),
        ensures
            final(self).wf(),
            final(self).has_process() == old(self).has_process(),
            final(self).live_pid() == old(self).live_pid(),
            final(self).syms() == old(self).syms(),
            r ==> final(self).bps().dom() == old(self).bps().dom().insert(addr),
            r && old(self).has_process() ==> exists|b: u8|
                final(self).bps() == old(self).bps().insert(addr, BpState::Installed(b)),
            !r ==> final(self).bps() == old(self).bps(),
            !old(self).has_process() ==> r && final(self).bps() == old(self).bps().insert(
                addr,
                BpState::Pending,
            ),
    {
        match &mut self.inferior {
            Some(inf) => {
                let installed = inf.add_breakpoint(addr, &mut self.breakpoints);
                proof {
                    if installed {
                        let b = choose|b: u8|
                            self.breakpoints@ == old(self).breakpoints@.insert(
                                addr,
                                BpState::Installed(b),
                            );
                        assert(self.bps() == old(self).bps().insert(addr, BpState::Installed(b)));
                    }
                }
                installed
            },
            None => {
                self.breakpoints.set_pending(addr);
                true
            },
        }
    }

    /// Notes a status the live process reported: the terminal outcomes —
    /// exited, killed by a signal — leave the session with no process; a
    /// stop leaves it as it was.
    pub fn note_status(&mut self, status: &Status)
        ensures
            final(self).wf() == old(self).wf(),
            final(self).bps() == old(self).bps(),
            final(self).syms() == old(self).syms(),
            final(self).spec_target() == old(self).spec_target(),
            status is Stopped ==> final(self).has_process() == old(self).has_process()
                && final(self).live_pid() == old(self).live_pid(),
            status is Exited || status is Signaled ==> !final(self).has_process(),
    {
        match status {
            Status::Stopped(_, _) => {},
            Status::Exited(_) => {
                self.inferior = None;
            },
            Status::Signaled(_) => {
                self.inferior = None;
            },
        }
    }

    /// Resumes the live process and notes what it reports.
    fn resume_and_note(&mut self) -> (r: Result<Status, DebugError>)
        requires
            old(self).wf(),
            old(self).has_process(),
        ensures
            final(self).wf(),
            final(self).bps() == old(self).bps(),
            final(self).syms() == old(self).syms(),
            final(self).spec_target() == old(self).spec_target(),
            r matches Ok(st) ==> match st {
                Status::Stopped(_, _) => final(self).has_process() && final(self).live_pid()
                    == old(self).live_pid(),
                Status::Exited(_) => !final(self).has_process(),
                Status::Signaled(_) => !final(self).has_process(),
            },
            r is Err ==> final(self).has_process() && final(self).live_pid() == old(self).live_pid(),
            r matches Err(e) ==> e is Trace,
    {
        let outcome = match &mut self.inferior {
            Some(inf) => inf.resume(None, &self.breakpoints),
            None => { return Err(DebugError::NoProcess) },
        };
        match outcome {
            Ok(st) => {
                self.note_status(&st);
                Ok(st)
            },
            Err(e) => Err(DebugError::Trace(e)),
        }
    }

    /// Launches the session's target anew: takes charge of the freshly
    /// spawned, trace-stopped child `pid`, materializes every registered
    /// breakpoint in it, and resumes it until its first stop, exit, or
    /// fatal signal.  The set of registered breakpoint addresses is exactly
    /// what it was before the launch, however it was accumulated.  Any
    /// previous process must have been terminated first.
    pub fn run_with(&mut self, pid: i32) -> (r: Result<Status, DebugError>)
        requires
            old(self).wf(),
            !old(self).has_process(),
        ensures
            final(self).wf(),
            final(self).bps().dom() == old(self).bps().dom(),
            final(self).syms() == old(self).syms(),
            final(self).spec_target() == old(self).spec_target(),
            r matches Ok(st) ==> match st {
                Status::Stopped(_, _) => final(self).has_process() && final(self).live_pid()
                    == Some(pid),
                Status::Exited(_) => !final(self).has_process(),
                Status::Signaled(_) => !final(self).has_process(),
            },
            r == Err::<Status, DebugError>(DebugError::SpawnFailed) ==> (!final(self).has_process()
                && final(self).bps() == old(self).bps()),
            r matches Err(DebugError::Trace(_)) ==> final(self).has_process()
                && final(self).live_pid() == Some(pid),
            !(r == Err::<Status, DebugError>(DebugError::NoProcess)),
    {
        match Inferior::new(pid, &mut self.breakpoints) {
            None => Err(DebugError::SpawnFailed),
            Some(inf) => {
                self.inferior = Some(inf);
                self.resume_and_note()
            },
        }
    }

    /// Resumes the live process; with none, reports so.
    pub fn continue_execution(&mut self) -> (r: Result<Status, DebugError>)
        requires
            old(self).wf(),
        ensures
            final(self).wf(),
            final(self).bps() == old(self).bps(),
            final(self).syms() == old(self).syms(),
            final(self).spec_target() == old(self).spec_target(),
            r == Err::<Status, DebugError>(DebugError::NoProcess) <==> !old(self).has_process(),
            !old(self).has_process() ==> *final(self) == *old(self),
            r matches Ok(st) ==> match st {
                Status::Stopped(_, _) => final(self).has_process(),
                Status::Exited(_) => !final(self).has_process(),
                Status::Signaled(_) => !final(self).has_process(),
            },
    {
        if self.inferior.is_some() {
            self.resume_and_note()
        } else {
            Err(DebugError::NoProcess)
        }
    }

    /// Walks the live process's stack, innermost frame first.  With no
    /// process, reports so.
    pub fn backtrace(&self) -> (r: Result<Vec<StackFrame>, DebugError>)
        ensures
            !self.has_process() <==> r == Err::<Vec<StackFrame>, DebugError>(
                DebugError::NoProcess,
            ),
            r matches Ok(f) ==> f@.len() <= MAX_FRAMES,
    {
        match &self.inferior {
            Some(inf) => match inf.backtrace(&self.symbols) {
                Ok(frames) => Ok(frames),
                Err(e) => Err(DebugError::Trace(e)),
            },
            None => Err(DebugError::NoProcess),
        }
    }

    /// Terminates the live process, if any, and drops it from the session:
    /// a no-op without one.  On a kill failure the session keeps the
    /// process and reports the error as a warning-level outcome.
    pub fn kill(&mut self) -> (r: Result<Option<Status>, DebugError>)
        requires
            old(self).wf(),
        ensures
            final(self).wf(),
            final(self).bps() == old(self).bps(),
            final(self).syms() == old(self).syms(),
            final(self).spec_target() == old(self).spec_target(),
            r is Ok ==> !final(self).has_process(),
            old(self).has_process() && r is Ok ==> r matches Ok(Some(_)),
            !old(self).has_process() ==> (r == Ok::<Option<Status>, DebugError>(None)
                && *final(self) == *old(self)),
            r is Err ==> final(self).has_process() == old(self).has_process(),
    {
        let outcome = match &mut self.inferior {
            Some(inf) => inf.kill(),
            None => { return Ok(None) },
        };
        match outcome {
            Ok(st) => {
                self.inferior = None;
                Ok(Some(st))
            },
            Err(e) => Err(DebugError::Trace(e)),
        }
    }
}

} // verus!
