//! The execution engine's step-over-breakpoint protocol.
//!
//! A breakpoint trap is one byte long, so when the target executes it the
//! instruction pointer stops one byte past the breakpoint address.  Resuming
//! naively would re-trigger the same trap forever.  Instead, every resume
//! first consults [`plan_resume`]: if the stop happened at an armed
//! breakpoint, the original byte is restored, the instruction pointer is
//! rewound, exactly one single step executes the real instruction, the trap
//! is re-armed (unless the step ended the process), and only then does the
//! target run free.  The process-facing half of the protocol (register and
//! memory access, stepping, waiting) is performed by the caller; the
//! decisions here are pure and fully specified.

use crate::breakpoints::BreakpointTable;
use vstd::prelude::*;

verus! {

/// The trap signal number: the signal a traced target stops with when it
/// executes the trap opcode, and the signal expected at the post-exec stop of
/// a freshly spawned target.
pub const TRAP_SIGNAL: i32 = 5;

/// How a resume/step/continue operation left the target.  This is the sole
/// channel through which the engine reports process state.
#[derive(PartialEq, Eq, Structural, Clone, Copy, Debug)]
pub enum Status {
    /// The target stopped on a signal; carries the signal number and the
    /// instruction pointer at the stop.
    Stopped(i32, u64),
    /// The target exited normally; carries the exit status code.
    Exited(i32),
    /// The target was terminated by a signal; carries the signal number.
    Signaled(i32),
}

/// What a `continue` must do before letting the target run free.
#[derive(PartialEq, Eq, Structural, Clone, Copy, Debug)]
pub enum ResumePlan {
    /// The last stop was the trap of an armed breakpoint: restore `saved` at
    /// `addr`, rewind the instruction pointer to `addr`, single-step once,
    /// re-arm (unless the step ended the process), then resume.
    StepOver { addr: u64, saved: u8 },
    /// The stop was not at a tracked armed breakpoint: resume directly.
    FreeResume,
}

/// A freshly spawned target is accepted only when it stopped with the
/// expected post-exec trap signal; anything else is a launch failure.
pub fn launch_ok(status: &Status) -> (r: bool)
    ensures
        r == (status matches Status::Stopped(sig, _) && sig == TRAP_SIGNAL),
{
    match status {
        Status::Stopped(sig, _) => *sig == TRAP_SIGNAL,
        _ => false,
    }
}

/// Decides how to resume from the current stop.  `rip` is the instruction
/// pointer read from the stopped target; the candidate breakpoint address is
/// one byte behind it, because the trap instruction is one byte long.
pub fn plan_resume(rip: u64, table: &BreakpointTable) -> (r: ResumePlan)
    requires
        table.wf(),
    ensures
        match r {
            ResumePlan::StepOver { addr, saved } => rip >= 1 && addr == rip - 1
                && table.armed_byte(addr) == Some(saved),
            ResumePlan::FreeResume => rip == 0 || table.armed_byte((rip - 1) as u64)
                is None,
        },
{
    if rip == 0 {
        return ResumePlan::FreeResume;
    }
    let candidate = rip - 1;
    match table.lookup(candidate) {
        Some(saved) => ResumePlan::StepOver { addr: candidate, saved },
        None => ResumePlan::FreeResume,
    }
}

/// After the single step over a restored instruction: re-arm only if the
/// target is still alive.  An `Exited` or `Signaled` step is propagated
/// immediately — never write to a process image that is already gone.
pub fn should_rearm_after_step(status: &Status) -> (r: bool)
    ensures
        r == (status matches Status::Stopped(_, _)),
{
    match status {
        Status::Stopped(_, _) => true,
        _ => false,
    }
}

/// The breakpoint site a stop belongs to: the address one byte behind the
/// stopped instruction pointer, when that address is a tracked armed
/// breakpoint.  Used to report a breakpoint hit at the address the user set,
/// rather than at the byte past the trap.
pub fn breakpoint_site(status: &Status, table: &BreakpointTable) -> (r: Option<u64>)
    requires
        table.wf(),
    ensures
        match r {
            Some(site) => status matches Status::Stopped(_, ip) && ip >= 1 && site == ip - 1
                && table.armed_byte(site) is Some,
            None => !(status matches Status::Stopped(_, ip) && ip >= 1 && table.armed_byte(
                (ip - 1) as u64,
            ) is Some),
        },
{
    match status {
        Status::Stopped(_, ip) => {
            if *ip == 0 {
                return None;
            }
            let candidate = *ip - 1;
            match table.lookup(candidate) {
                Some(_) => Some(candidate),
                None => None,
            }
        },
        _ => None,
    }
}

} // verus!
