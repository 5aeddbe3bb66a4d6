//! Walking the call stack along the frame-pointer chain.
//!
//! Starting from the stopped target's instruction pointer and frame base,
//! each frame is reported with its symbolic context; the walk stops at the
//! program's entry function, and otherwise follows the saved return address
//! (one word above the frame base) and the caller's frame base (at the frame
//! base itself).  The memory reads and symbol lookups are performed by the
//! caller frame by frame; the walk state and its transitions live here.

use vstd::prelude::*;

verus! {

/// The in-progress state of one backtrace.
pub struct BacktraceWalk {
    /// Instruction pointer of the frame about to be reported.
    pub ip: u64,
    /// Frame base of the frame about to be reported.
    pub base: u64,
    /// Number of frames reported so far.
    pub frames: u64,
    /// Whether the entry function has been reached.
    pub done: bool,
}

/// The walk as it begins at a stop.
pub open spec fn spec_start(ip: u64, base: u64) -> BacktraceWalk {
    BacktraceWalk { ip, base, frames: 0, done: false }
}

/// Reporting one frame: the count grows by one, and the walk finishes
/// exactly when the reported frame belongs to the entry function.
pub open spec fn spec_note(w: BacktraceWalk, is_entry: bool) -> BacktraceWalk {
    BacktraceWalk { frames: (w.frames + 1) as u64, done: is_entry, ..w }
}

impl BacktraceWalk {
    /// Begins a walk at the stopped target's current position.
    pub fn start(ip: u64, base: u64) -> (r: BacktraceWalk)
        ensures
            r == spec_start(ip, base),
    {
        BacktraceWalk { ip, base, frames: 0, done: false }
    }

    /// Counts the frame at the current position, whose resolved function the
    /// caller has compared against the program's entry function.
    pub fn note_frame(&mut self, is_entry: bool)
        requires
            !old(self).done,
            old(self).frames < u64::MAX,
        ensures
            *final(self) == spec_note(*old(self), is_entry),
    {
        self.frames = self.frames + 1;
        self.done = is_entry;
    }

    /// Moves to the caller's frame, from the two words the caller read out
    /// of the target's stack.
    pub fn advance(&mut self, ret_addr: u64, caller_base: u64)
        requires
            !old(self).done,
        ensures
            final(self).ip == ret_addr,
            final(self).base == caller_base,
            final(self).frames == old(self).frames,
            final(self).done == old(self).done,
    {
        self.ip = ret_addr;
        self.base = caller_base;
    }
}

/// Address of the saved return address: one word above the frame base.
/// `None` when the slot would lie past the end of the address space.
pub fn return_address_slot(base: u64) -> (r: Option<u64>)
    ensures
        match r {
            Some(slot) => base + 8 <= u64::MAX && slot == base + 8,
            None => base + 8 > u64::MAX,
        },
{
    if base <= u64::MAX - 8 {
        Some(base + 8)
    } else {
        None
    }
}

/// A backtrace taken while the target is stopped exactly in the program's
/// entry function produces exactly one frame: the first reported frame is the
/// entry frame, so the walk finishes immediately after counting it.
pub proof fn lemma_entry_frame_stops_walk(ip: u64, base: u64)
    ensures
        spec_note(spec_start(ip, base), true).done,
        spec_note(spec_start(ip, base), true).frames == 1,
{
}

} // verus!
