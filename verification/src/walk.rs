//! Bounded frame-pointer stack walking.
//!
//! A backtrace follows the classic chain: the word at the frame pointer is
//! the caller's frame pointer, the word eight bytes above it the return
//! address.  The walk stops when the enclosing function is the program's
//! entry function — but a stripped or corrupted stack may never reach it,
//! so the walker also caps the number of emitted frames and is therefore
//! finite on every chain, cyclic ones included.

use crate::symbols::{SymbolTable, resolves_to_entry};
use vstd::prelude::*;

verus! {

/// Most frames a single backtrace reports.
pub const MAX_FRAMES: usize = 64;

/// One stack frame: where execution is in it, and its frame base pointer.
#[derive(Clone, Copy, PartialEq, Eq, Structural, Debug)]
pub struct StackFrame {
    /// Program counter inside the frame's function.
    pub pc: usize,
    /// The frame's base pointer.
    pub fp: usize,
}

/// State of one walk down a frame chain.
pub struct FrameWalk {
    pc: usize,
    fp: usize,
    steps: usize,
    done: bool,
}

impl FrameWalk {
    /// Program counter of the frame about to be emitted.
    pub closed spec fn spec_pc(&self) -> usize {
        self.pc
    }

    /// Frame pointer of the frame about to be emitted.
    pub closed spec fn spec_fp(&self) -> usize {
        self.fp
    }

    /// Frames emitted so far.
    pub closed spec fn spec_steps(&self) -> usize {
        self.steps
    }

    /// Whether the walk has finished.
    pub closed spec fn spec_done(&self) -> bool {
        self.done
    }

    /// The walk never emits more than [`MAX_FRAMES`] frames, and reaching
    /// the cap finishes it.
    pub closed spec fn inv(&self) -> bool {
        self.steps <= MAX_FRAMES && (self.steps == MAX_FRAMES ==> self.done)
    }

    /// Starts a walk at the stopped child's current position.
    pub fn start(pc: usize, fp: usize) -> (r: FrameWalk)
        ensures
            r.inv(),
            !r.spec_done(),
            r.spec_steps() == 0,
            r.spec_pc() == pc,
            r.spec_fp() == fp,
    {
        FrameWalk { pc, fp, steps: 0, done: false }
    }

    /// Whether the walk has finished.
    pub fn is_done(&self) -> (r: bool)
        ensures
            r == self.spec_done(),
    {
        self.done
    }

    /// Emits the current frame.  The walk finishes when this frame lies in
    /// the entry function or the cap is reached; an address the resolver
    /// does not know keeps the walk going.
    pub fn emit(&mut self, symbols: &SymbolTable) -> (f: StackFrame)
        requires
            old(self).inv(),
            !old(self).spec_done(),
        ensures
            final(self).inv(),
            f.pc == old(self).spec_pc(),
            f.fp == old(self).spec_fp(),
            final(self).spec_pc() == old(self).spec_pc(),
            final(self).spec_fp() == old(self).spec_fp(),
            final(self).spec_steps() == old(self).spec_steps() + 1,
            final(self).spec_steps() <= MAX_FRAMES,
            final(self).spec_done() == (resolves_to_entry(symbols@, old(self).spec_pc()) || old(
                self,
            ).spec_steps() + 1 == MAX_FRAMES),
    {
        let f = StackFrame { pc: self.pc, fp: self.fp };
        self.steps = self.steps + 1;
        let at_entry = symbols.is_entry_addr(self.pc);
        self.done = at_entry || self.steps == MAX_FRAMES;
        f
    }

    /// Moves to the caller's frame, read from the child's stack: `ret_addr`
    /// is the word stored eight bytes above the frame pointer, `saved_fp`
    /// the word stored at it.
    pub fn advance(&mut self, ret_addr: usize, saved_fp: usize)
        ensures
            final(self).spec_pc() == ret_addr,
            final(self).spec_fp() == saved_fp,
            final(self).spec_steps() == old(self).spec_steps(),
            final(self).spec_done() == old(self).spec_done(),
            old(self).inv() ==> final(self).inv(),
    {
        self.pc = ret_addr;
        self.fp = saved_fp;
    }
}

/// A backtrace terminates on every frame chain, including one that is
/// cyclic or corrupted and never reaches the entry function: each emitted
/// frame advances the step count, the count never passes [`MAX_FRAMES`],
/// and reaching that cap finishes the walk.
pub proof fn lemma_walk_bounded(w: FrameWalk)
    requires
        w.inv(),
    ensures
        w.spec_steps() <= MAX_FRAMES,
        w.spec_steps() == MAX_FRAMES ==> w.spec_done(),
{
}

} // verus!
