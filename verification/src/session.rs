//! The debug session: at most one live traced target and the breakpoint
//! table, with the state machine that every user command runs through.
//!
//! `NoTarget -> Running (spawn + arm) -> Stopped | Exited | Signaled`: from a
//! stop, `continue` runs the engine's resume protocol and ends in one of the
//! same states; `Exited`/`Signaled` return the session to `NoTarget`; a new
//! `run` first terminates any live target.  The session owns this state
//! exclusively — the caller performs the process-facing work (spawn, kill,
//! patching) and reports the outcomes back through these methods.

use crate::breakpoints::{BreakpointTable, Entry, RegisterOutcome, spec_arm, spec_disarm,
    spec_register};
use crate::engine::Status;
use vstd::prelude::*;
use vstd::string::StringExecFns;

verus! {

/// Whether a `continue` may proceed: only with a live target.
pub open spec fn spec_continue_allowed(s: Session) -> bool {
    s.target_live()
}

pub struct Session {
    live: bool,
    bp: BreakpointTable,
}

impl Session {
    /// Whether the session currently owns a live traced target.
    pub closed spec fn target_live(self) -> bool {
        self.live
    }

    /// The breakpoint table.
    pub closed spec fn bp_table(self) -> BreakpointTable {
        self.bp
    }

    /// The table's contents, for stating how commands change it.
    pub open spec fn table_seq(self) -> Seq<Entry> {
        self.bp_table().entries_seq()
    }

    pub open spec fn wf(self) -> bool {
        self.bp_table().wf()
    }

    /// A fresh session: no target, no breakpoints.
    pub fn new() -> (r: Session)
        ensures
            r.wf(),
            !r.target_live(),
            r.table_seq() == Seq::<Entry>::empty(),
    {
        Session { live: false, bp: BreakpointTable::new() }
    }

    /// Whether a `continue` may proceed.  With no live target the command
    /// must be refused and no controller operation performed.
    pub fn continue_allowed(&self) -> (r: bool)
        ensures
            r == spec_continue_allowed(*self),
    {
        self.live
    }

    /// The notice reported when a command that needs a live target arrives
    /// with none running.
    pub fn not_running_message() -> (r: String)
        ensures
            r@ == "The program is not running currently!"@,
    {
        String::from_str("The program is not running currently!")
    }

    /// Prepares a `run`: any previous target must be killed and reaped by the
    /// caller exactly when this returns `true`.  The session drops to
    /// `NoTarget` and every breakpoint returns to unarmed — the new process
    /// has a fresh memory image, so the old patches are meaningless, but the
    /// registered addresses persist and will be re-armed.
    pub fn prepare_run(&mut self) -> (kill_needed: bool)
        requires
            old(self).wf(),
        ensures
            final(self).wf(),
            kill_needed == old(self).target_live(),
            !final(self).target_live(),
            final(self).table_seq() == spec_disarm(old(self).table_seq()),
    {
        let kill_needed = self.live;
        self.live = false;
        self.bp.disarm_for_restart();
        kill_needed
    }

    /// Records that a fresh target spawned and stopped at its post-exec trap.
    /// The caller must now arm every pending breakpoint (see
    /// [`Self::unarmed_addrs`]) before the target is first resumed.
    pub fn on_spawned(&mut self)
        requires
            old(self).wf(),
            !old(self).target_live(),
        ensures
            final(self).wf(),
            final(self).target_live(),
            final(self).table_seq() == old(self).table_seq(),
    {
        self.live = true;
    }

    /// Folds a stop classification into the session: a plain stop keeps the
    /// target; an exit or a fatal signal releases it and disarms every
    /// breakpoint entry, while keeping every registration.
    pub fn on_status(&mut self, status: &Status)
        requires
            old(self).wf(),
        ensures
            final(self).wf(),
            match status {
                Status::Stopped(_, _) => final(self).target_live() == old(self).target_live()
                    && final(self).table_seq() == old(self).table_seq(),
                _ => !final(self).target_live() && final(self).table_seq() == spec_disarm(
                    old(self).table_seq(),
                ),
            },
    {
        match status {
            Status::Stopped(_, _) => {},
            _ => {
                self.live = false;
                self.bp.disarm_for_restart();
            },
        }
    }

    /// Releases the session on `quit`; the caller must kill and reap the
    /// target exactly when this returns `true`.
    pub fn quit(&mut self) -> (kill_needed: bool)
        requires
            old(self).wf(),
        ensures
            final(self).wf(),
            kill_needed == old(self).target_live(),
            !final(self).target_live(),
            final(self).table_seq() == old(self).table_seq(),
    {
        let kill_needed = self.live;
        self.live = false;
        kill_needed
    }

    /// Registers a resolved breakpoint address; idempotent, and reported
    /// distinctly when the address is already present.
    pub fn register_breakpoint(&mut self, addr: u64) -> (r: RegisterOutcome)
        requires
            old(self).wf(),
        ensures
            final(self).wf(),
            final(self).target_live() == old(self).target_live(),
            final(self).table_seq() == spec_register(old(self).table_seq(), addr),
            r == (if old(self).bp_table().tracks(addr) {
                RegisterOutcome::AlreadyRegistered
            } else {
                RegisterOutcome::Registered { index: old(self).table_seq().len() as usize }
            }),
    {
        self.bp.register(addr)
    }

    /// Whether a freshly registered breakpoint must be armed right away:
    /// only when a target is live; otherwise it waits for the next run.
    pub fn arm_now(&self) -> (r: bool)
        ensures
            r == self.target_live(),
    {
        self.live
    }

    /// The addresses still waiting to be armed, in registration order.
    pub fn unarmed_addrs(&self) -> (r: Vec<u64>)
        requires
            self.wf(),
        ensures
            forall|a: u64|
                r@.contains(a) <==> self.bp_table().tracks(a) && self.bp_table().armed_byte(a)
                    == None::<u8>,
            forall|i: int, j: int| 0 <= i < j < r@.len() ==> r@[i] != r@[j],
    {
        self.bp.unarmed_addrs()
    }

    /// Records that the trap byte was installed at `addr` over `orig`.
    pub fn note_armed(&mut self, addr: u64, orig: u8)
        requires
            old(self).wf(),
            old(self).bp_table().tracks(addr),
        ensures
            final(self).wf(),
            final(self).target_live() == old(self).target_live(),
            final(self).table_seq() == spec_arm(old(self).table_seq(), addr, orig),
            final(self).bp_table().armed_byte(addr) == Some(orig),
            forall|b: u64| b != addr ==> final(self).bp_table().armed_byte(b) == old(
                self,
            ).bp_table().armed_byte(b),
    {
        self.bp.set_armed(addr, orig)
    }

    /// The saved byte of an armed breakpoint, for the resume protocol.
    pub fn armed_byte_at(&self, addr: u64) -> (r: Option<u8>)
        requires
            self.wf(),
        ensures
            r == self.bp_table().armed_byte(addr),
    {
        self.bp.lookup(addr)
    }

    /// Borrows the table for the engine's decisions.
    pub fn table(&self) -> (r: &BreakpointTable)
        ensures
            *r == self.bp_table(),
    {
        &self.bp
    }

    /// Number of registered breakpoints.
    pub fn breakpoint_count(&self) -> (r: usize)
        ensures
            r == self.table_seq().len(),
    {
        self.bp.len()
    }
}

/// A `continue` issued with no live target is refused, so the caller reports
/// the not-running notice and touches no controller operation; the session
/// itself is unchanged by the query.
pub proof fn lemma_continue_needs_target(s: Session)
    requires
        !s.target_live(),
    ensures
        !spec_continue_allowed(s),
{
}

} // verus!
