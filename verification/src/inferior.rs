//! The process controller: owns the one traced child process and performs
//! the trace operations on it — materializing breakpoints, resuming past
//! them transparently, waiting, walking the stack, and killing.

use crate::breakpoint::{BpState, BreakpointTable};
use crate::status::{Status, TraceError};
use crate::symbols::SymbolTable;
use crate::trace;
use crate::trace::{WaitOutcome, valid_signal};
use crate::walk::{FrameWalk, MAX_FRAMES, StackFrame};
use crate::word;
use crate::word::{byte_at, with_byte, WORD_SIZE};
use vstd::prelude::*;

verus! {

/// The one-byte trap instruction written over a breakpoint address.
pub const TRAP_BYTE: u8 = 0xcc;

/// The breakpoint round trip leaves the target's memory logically
/// unmodified: installing a breakpoint writes the trap byte over one byte
/// of a word, recording the byte it replaced; the trap really sits there
/// while the breakpoint is armed, no neighbouring byte is touched, and
/// restoring the recorded byte gives back exactly the word the program
/// had.
pub proof fn lemma_breakpoint_byte_round_trip(word: u64, off: usize)
    requires
        off < WORD_SIZE,
    ensures
        byte_at(with_byte(word, off, TRAP_BYTE), off) == TRAP_BYTE,
        forall|o: usize|
            o < WORD_SIZE && o != off ==> byte_at(with_byte(word, off, TRAP_BYTE), o) == byte_at(
                word,
                o,
            ),
        with_byte(with_byte(word, off, TRAP_BYTE), off, byte_at(word, off)) == word,
{
    word::lemma_with_byte_at(word, off, TRAP_BYTE);
    word::lemma_patch_round_trip(word, off, TRAP_BYTE);
}

/// Handle of the one live traced child process.  Exactly one exists per
/// controller; it is dropped when the child exits, is signaled to death, or
/// is explicitly killed.
pub struct Inferior {
    pid: i32,
}

/// The breakpoint the child is stopped just past, if any.  The trap is one
/// byte long and the trap fires after it executes, so on a breakpoint stop
/// the reported program counter is one past the breakpoint address; an
/// address of zero cannot be one past anything.
pub open spec fn spec_stepover(pc: usize, bps: Map<usize, BpState>) -> Option<(usize, u8)> {
    if pc >= 1 && bps.contains_key((pc - 1) as usize) && bps[(pc - 1) as usize] is Installed {
        Some((((pc - 1) as usize), bps[(pc - 1) as usize]->Installed_0))
    } else {
        None
    }
}

/// Decides whether a resume must first step over a breakpoint: yields the
/// breakpoint address the child is stopped just past together with the
/// original byte to restore there, or nothing.
pub fn stepover_target(pc: usize, bps: &BreakpointTable) -> (r: Option<(usize, u8)>)
    requires
        bps.wf(),
    ensures
        r == spec_stepover(pc, bps@),
{
    if pc >= 1 {
        match bps.get(pc - 1) {
            Some(BpState::Installed(b)) => Some((pc - 1, b)),
            _ => None,
        }
    } else {
        None
    }
}

/// Maps one wait outcome to the status reported for it: an exit keeps its
/// code, a death by signal keeps its signal, a stop keeps its signal and
/// carries `pc`, the program counter read from the stopped child, and a
/// wait state this debugger never drives the child into is the library's
/// own error, never passed off as a status.
pub fn status_of_outcome(outcome: WaitOutcome, pc: usize) -> (r: Result<Status, TraceError>)
    ensures
        outcome matches WaitOutcome::Exited(c) ==> r == Ok::<Status, TraceError>(
            Status::Exited(c),
        ),
        outcome matches WaitOutcome::Signaled(s) ==> r == Ok::<Status, TraceError>(
            Status::Signaled(s),
        ),
        outcome matches WaitOutcome::Stopped(s) ==> r == Ok::<Status, TraceError>(
            Status::Stopped(s, pc),
        ),
        outcome is Other ==> r == Err::<Status, TraceError>(TraceError::UnexpectedStatus),
{
    match outcome {
        WaitOutcome::Exited(code) => Ok(Status::Exited(code)),
        WaitOutcome::Signaled(s) => Ok(Status::Signaled(s)),
        WaitOutcome::Stopped(s) => Ok(Status::Stopped(s, pc)),
        WaitOutcome::Other => Err(TraceError::UnexpectedStatus),
    }
}

impl Inferior {
    /// The child's process id.
    pub closed spec fn id(&self) -> i32 {
        self.pid
    }

    /// Returns the pid of this inferior.
    pub fn pid(&self) -> (r: i32)
        ensures
            r == self.id(),
    {
        self.pid
    }

    /// Takes charge of a freshly spawned child that requested trace mode
    /// before executing its image: waits for its initial trap stop, then
    /// materializes every breakpoint registered in the table, recording the
    /// overwritten bytes back into it.  Yields nothing if the child cannot
    /// be brought to its initial stop.  The set of registered addresses is
    /// never changed, only pending entries become installed ones.
    pub fn new(pid: i32, breakpoints: &mut BreakpointTable) -> (r: Option<Inferior>)
        requires
            old(breakpoints).wf(),
        ensures
            final(breakpoints).wf(),
            final(breakpoints)@.dom() == old(breakpoints)@.dom(),
            final(breakpoints).addr_seq() == old(breakpoints).addr_seq(),
            r matches Some(inf) ==> inf.id() == pid,
            r is None ==> final(breakpoints)@ == old(breakpoints)@,
            forall|a: usize| #![auto] final(breakpoints)@.contains_key(a)
                ==> (final(breakpoints)@[a] == old(breakpoints)@[a]
                    || final(breakpoints)@[a] is Installed),
    {
        let mut inf = Inferior { pid };
        match inf.wait() {
            Ok(_) => {},
            Err(_) => { return None },
        }
        let n = breakpoints.count();
        let mut i: usize = 0;
        while i < n
            invariant
                i <= n,
                breakpoints.wf(),
                n == breakpoints.addr_seq().len(),
                breakpoints@.dom() == old(breakpoints)@.dom(),
                breakpoints.addr_seq() == old(breakpoints).addr_seq(),
                forall|a: usize| #![auto] breakpoints@.contains_key(a) ==> (breakpoints@[a]
                    == old(breakpoints)@[a] || breakpoints@[a] is Installed),
                inf.id() == pid,
            decreases n - i,
        {
            let addr = breakpoints.addr_at(i);
            let ghost pre = breakpoints@;
            let installed = inf.add_breakpoint(addr, breakpoints);
            proof {
                if installed {
                    assert(pre.dom().insert(addr) =~= pre.dom());
                }
            }
            i += 1;
        }
        Some(inf)
    }

    /// Writes a trap byte at `addr` in the live child and records the byte
    /// it replaced.  On failure — an address that is not valid writable
    /// memory of the target — the table is left exactly as it was, and the
    /// caller reports the invalid address.
    pub fn add_breakpoint(&mut self, addr: usize, breakpoints: &mut BreakpointTable) -> (r: bool)
        requires
            old(breakpoints).wf(),
        ensures
            final(breakpoints).wf(),
            final(self).id() == old(self).id(),
            r ==> exists|b: u8|
                final(breakpoints)@ == old(breakpoints)@.insert(addr, BpState::Installed(b)),
            r ==> final(breakpoints)@.dom() == old(breakpoints)@.dom().insert(addr),
            r && old(breakpoints)@.contains_key(addr) ==> final(breakpoints).addr_seq() == old(
                breakpoints,
            ).addr_seq(),
            r && !old(breakpoints)@.contains_key(addr) ==> final(breakpoints).addr_seq() == old(
                breakpoints,
            ).addr_seq().push(addr),
            !r ==> final(breakpoints)@ == old(breakpoints)@ && final(breakpoints).addr_seq()
                == old(breakpoints).addr_seq(),
    {
        match self.write_byte(addr, TRAP_BYTE) {
            Ok(orig) => {
                breakpoints.set_installed(addr, orig);
                proof {
                    assert(final(breakpoints)@ == old(breakpoints)@.insert(
                        addr,
                        BpState::Installed(orig),
                    ));
                }
                true
            },
            Err(_) => false,
        }
    }

    /// Patches the single byte at `addr` in the child's memory and returns
    /// the byte that was there: reads the aligned word containing `addr`,
    /// swaps the byte at its offset, writes the word back.
    fn write_byte(&mut self, addr: usize, val: u8) -> (r: Result<u8, TraceError>)
        ensures
            final(self).id() == old(self).id(),
    {
        let aligned = word::align_addr_to_word(addr);
        let off = addr - aligned;
        let w = match trace::peek_word(self.pid, aligned) {
            Ok(w) => w,
            Err(e) => { return Err(TraceError::Os(e)) },
        };
        let orig = word::extract_byte(w, off);
        let updated = word::replace_byte(w, off, val);
        match trace::poke_word(self.pid, aligned, updated) {
            Ok(()) => Ok(orig),
            Err(e) => Err(TraceError::Os(e)),
        }
    }

    /// Waits for the child to change state and reports that state: the
    /// outcome the OS delivered, mapped by [`status_of_outcome`], with the
    /// program counter read from the child when it stopped.
    pub fn wait(&self) -> (r: Result<Status, TraceError>)
        ensures
            r matches Ok(Status::Stopped(s, _)) ==> valid_signal(s),
            r matches Ok(Status::Signaled(s)) ==> valid_signal(s),
    {
        let outcome = match trace::wait_target(self.pid) {
            Ok(o) => o,
            Err(e) => { return Err(TraceError::Os(e)) },
        };
        let pc: usize = match outcome {
            WaitOutcome::Stopped(_) => {
                match trace::read_pc_fp(self.pid) {
                    Ok(regs) => #[verifier::truncate] (regs.0 as usize),
                    Err(e) => { return Err(TraceError::Os(e)) },
                }
            },
            _ => 0,
        };
        status_of_outcome(outcome, pc)
    }

    /// Resumes the stopped child and waits for the next stop, exit, or
    /// fatal signal, delivering `sig` if one is pending.
    ///
    /// A trap physically overwrites the program's own byte, so if the child
    /// is stopped just past a breakpoint, resuming naively would re-fire
    /// the same trap without progress.  Instead: restore the original byte,
    /// rewind the program counter onto it, single-step that one real
    /// instruction, and — unless the step already ended the process — put
    /// the trap back so the breakpoint stays armed, before continuing full
    /// execution.  This holds even when the breakpoint sits at the very
    /// address the process starts at.
    pub fn resume(&mut self, sig: Option<i32>, breakpoints: &BreakpointTable) -> (r: Result<
        Status,
        TraceError,
    >)
        requires
            breakpoints.wf(),
            sig matches Some(s) ==> valid_signal(s),
        ensures
            final(self).id() == old(self).id(),
            r matches Ok(Status::Stopped(s, _)) ==> valid_signal(s),
            r matches Ok(Status::Signaled(s)) ==> valid_signal(s),
    {
        let regs = match trace::read_pc_fp(self.pid) {
            Ok(t) => t,
            Err(e) => { return Err(TraceError::Os(e)) },
        };
        let pc = #[verifier::truncate] (regs.0 as usize);
        if let Some((bp_addr, orig)) = stepover_target(pc, breakpoints) {
            match self.write_byte(bp_addr, orig) {
                Ok(_) => {},
                Err(e) => { return Err(e) },
            }
            match trace::write_pc(self.pid, bp_addr as u64) {
                Ok(()) => {},
                Err(e) => { return Err(TraceError::Os(e)) },
            }
            match trace::step_target(self.pid, sig) {
                Ok(()) => {},
                Err(e) => { return Err(TraceError::Os(e)) },
            }
            match self.wait() {
                Err(e) => { return Err(e) },
                Ok(Status::Stopped(_, _)) => {
                    match self.write_byte(bp_addr, TRAP_BYTE) {
                        Ok(_) => {},
                        Err(e) => { return Err(e) },
                    }
                },
                Ok(Status::Exited(code)) => { return Ok(Status::Exited(code)) },
                Ok(Status::Signaled(s)) => { return Ok(Status::Signaled(s)) },
            }
        }
        match trace::cont_target(self.pid, sig) {
            Ok(()) => {},
            Err(e) => { return Err(TraceError::Os(e)) },
        }
        self.wait()
    }

    /// Forcibly terminates the child with the uncatchable kill signal and
    /// waits for its final status.
    pub fn kill(&mut self) -> (r: Result<Status, TraceError>)
        ensures
            final(self).id() == old(self).id(),
            r matches Ok(Status::Stopped(s, _)) ==> valid_signal(s),
            r matches Ok(Status::Signaled(s)) ==> valid_signal(s),
    {
        match trace::kill_target(self.pid) {
            Err(e) => Err(TraceError::Os(e)),
            Ok(()) => self.wait(),
        }
    }

    /// Walks the frame-pointer chain from the stopped child's current
    /// registers and reports the frames, innermost first.  The walk stops
    /// at the entry function and is capped, so it finishes even on a
    /// corrupted or cyclic chain; a frame pointer too high to hold a saved
    /// return address also ends it.
    pub fn backtrace(&self, symbols: &SymbolTable) -> (r: Result<Vec<StackFrame>, TraceError>)
        ensures
            r matches Ok(frames) ==> frames@.len() <= MAX_FRAMES,
    {
        let regs = match trace::read_pc_fp(self.pid) {
            Ok(t) => t,
            Err(e) => { return Err(TraceError::Os(e)) },
        };
        let mut walk = FrameWalk::start(
            #[verifier::truncate] (regs.0 as usize),
            #[verifier::truncate] (regs.1 as usize),
        );
        let mut frames: Vec<StackFrame> = Vec::new();
        while !walk.is_done()
            invariant
                walk.inv(),
                walk.spec_steps() <= MAX_FRAMES,
                frames@.len() == walk.spec_steps(),
            decreases MAX_FRAMES - walk.spec_steps(),
        {
            let f = walk.emit(symbols);
            frames.push(f);
            if walk.is_done() {
                break ;
            }
            if f.fp > usize::MAX - 8 {
                break ;
            }
            let ra = match trace::peek_word(self.pid, f.fp + 8) {
                Ok(w) => w,
                Err(e) => { return Err(TraceError::Os(e)) },
            };
            let sfp = match trace::peek_word(self.pid, f.fp) {
                Ok(w) => w,
                Err(e) => { return Err(TraceError::Os(e)) },
            };
            walk.advance(
                #[verifier::truncate] (ra as usize),
                #[verifier::truncate] (sfp as usize),
            );
        }
        Ok(frames)
    }
}

} // verus!
