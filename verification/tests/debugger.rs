use deet::backtrace::BacktraceWalk;
use deet::breakpoints::{BreakpointTable, RegisterOutcome};
use deet::engine::{breakpoint_site, launch_ok, plan_resume, should_rearm_after_step, ResumePlan,
    Status, TRAP_SIGNAL};
use deet::patch::{align_addr_to_word, byte_offset_in_word, splice_byte, TRAP_OPCODE};
use deet::resolve::{plan_break, resolve_break, unresolved_message, BreakPlan};
use deet::session::Session;

#[test]
fn align_rounds_down_to_word() {
    assert_eq!(align_addr_to_word(0x1007), 0x1000);
    assert_eq!(align_addr_to_word(0x1008), 0x1008);
    assert_eq!(align_addr_to_word(0), 0);
    assert_eq!(byte_offset_in_word(0x1007), 7);
    assert_eq!(byte_offset_in_word(0x1008), 0);
}

#[test]
fn splice_replaces_one_byte_exactly() {
    let word: u64 = 0x1122334455667788;
    let (orig, patched) = splice_byte(word, 0, TRAP_OPCODE);
    assert_eq!(orig, 0x88);
    assert_eq!(patched, 0x11223344556677cc);
    let (orig2, patched2) = splice_byte(word, 6, 0xab);
    assert_eq!(orig2, 0x22);
    assert_eq!(patched2, 0x11ab334455667788);
}

#[test]
fn patch_then_restore_is_exact() {
    let word: u64 = 0xdeadbeefcafef00d;
    for off in 0..8 {
        let (orig, patched) = splice_byte(word, off, TRAP_OPCODE);
        let (trap, restored) = splice_byte(patched, off, orig);
        assert_eq!(trap, TRAP_OPCODE);
        assert_eq!(restored, word);
    }
}

#[test]
fn register_twice_keeps_one_entry() {
    let mut table = BreakpointTable::new();
    assert_eq!(table.register(0x400123), RegisterOutcome::Registered { index: 0 });
    assert_eq!(table.len(), 1);
    assert_eq!(table.register(0x400123), RegisterOutcome::AlreadyRegistered);
    assert_eq!(table.len(), 1);
    assert_eq!(table.register(0x400456), RegisterOutcome::Registered { index: 1 });
    assert_eq!(table.len(), 2);
}

#[test]
fn arm_and_disarm_track_saved_bytes() {
    let mut table = BreakpointTable::new();
    table.register(0x1000);
    table.register(0x2000);
    assert_eq!(table.lookup(0x1000), None);
    table.set_armed(0x1000, 0x90);
    assert_eq!(table.lookup(0x1000), Some(0x90));
    assert_eq!(table.lookup(0x2000), None);
    assert_eq!(table.unarmed_addrs(), vec![0x2000]);
    table.set_armed(0x2000, 0x55);
    assert_eq!(table.unarmed_addrs(), vec![]);
    table.disarm_for_restart();
    assert_eq!(table.lookup(0x1000), None);
    assert_eq!(table.lookup(0x2000), None);
    assert_eq!(table.unarmed_addrs(), vec![0x1000, 0x2000]);
    assert_eq!(table.len(), 2);
}

#[test]
fn launch_accepts_only_the_trap_stop() {
    assert!(launch_ok(&Status::Stopped(TRAP_SIGNAL, 0x400000)));
    assert!(!launch_ok(&Status::Stopped(2, 0x400000)));
    assert!(!launch_ok(&Status::Exited(0)));
    assert!(!launch_ok(&Status::Signaled(9)));
}

#[test]
fn resume_steps_over_an_armed_breakpoint() {
    let mut table = BreakpointTable::new();
    table.register(0x1000);
    table.set_armed(0x1000, 0x55);
    assert_eq!(
        plan_resume(0x1001, &table),
        ResumePlan::StepOver { addr: 0x1000, saved: 0x55 }
    );
    assert_eq!(plan_resume(0x1000, &table), ResumePlan::FreeResume);
    assert_eq!(plan_resume(0, &table), ResumePlan::FreeResume);
}

#[test]
fn resume_ignores_unarmed_or_untracked_stops() {
    let mut table = BreakpointTable::new();
    table.register(0x1000);
    assert_eq!(plan_resume(0x1001, &table), ResumePlan::FreeResume);
}

#[test]
fn only_a_live_target_is_rearmed_after_the_step() {
    assert!(should_rearm_after_step(&Status::Stopped(TRAP_SIGNAL, 0x1234)));
    assert!(!should_rearm_after_step(&Status::Exited(1)));
    assert!(!should_rearm_after_step(&Status::Signaled(9)));
}

#[test]
fn continue_without_target_is_refused() {
    let session = Session::new();
    assert!(!session.continue_allowed());
    let msg = Session::not_running_message();
    assert!(msg.contains("not running"));
}

#[test]
fn exit_keeps_registrations_but_disarms_them() {
    let mut session = Session::new();
    session.register_breakpoint(0x1000);
    session.register_breakpoint(0x2000);
    assert!(!session.prepare_run());
    session.on_spawned();
    for addr in session.unarmed_addrs() {
        session.note_armed(addr, 0x90);
    }
    assert_eq!(session.unarmed_addrs(), vec![]);
    session.on_status(&Status::Exited(0));
    assert!(!session.continue_allowed());
    assert_eq!(session.breakpoint_count(), 2);
    assert_eq!(session.unarmed_addrs(), vec![0x1000, 0x2000]);
}

#[test]
fn backtrace_at_entry_function_has_one_frame() {
    let mut walk = BacktraceWalk::start(0x401126, 0x7ffdeadbe000);
    walk.note_frame(true);
    assert!(walk.done);
    assert_eq!(walk.frames, 1);
}

#[test]
fn backtrace_follows_the_frame_chain() {
    let mut walk = BacktraceWalk::start(0x401126, 0x7000);
    walk.note_frame(false);
    assert!(!walk.done);
    walk.advance(0x401099, 0x7040);
    assert_eq!(walk.ip, 0x401099);
    assert_eq!(walk.base, 0x7040);
    walk.note_frame(true);
    assert!(walk.done);
    assert_eq!(walk.frames, 2);
}

#[test]
fn breakpoint_at_main_hit_then_exit() {
    // A simulated run: the program's entry function starts at `main_addr`,
    // whose first instruction byte 0x55 sits in `word`.
    let main_addr: u64 = 0x401000;
    let mut word: u64 = 0x4883ec0889d62055;
    let off = byte_offset_in_word(main_addr as usize);
    assert_eq!(off, 0);

    let mut session = Session::new();

    // break main: resolved through the function lookup
    let plan = plan_break("main");
    assert_eq!(plan, BreakPlan::TryFunction);
    let resolved = resolve_break(&plan, None, Some(main_addr)).unwrap();
    assert_eq!(resolved, main_addr);
    assert_eq!(
        session.register_breakpoint(resolved),
        RegisterOutcome::Registered { index: 0 }
    );

    // run ./prog: spawn, then arm everything before the first resume
    assert!(!session.prepare_run());
    session.on_spawned();
    for addr in session.unarmed_addrs() {
        let (orig, patched) = splice_byte(word, off, TRAP_OPCODE);
        word = patched;
        session.note_armed(addr, orig);
    }
    // the armed site now reads back the trap opcode
    assert_eq!(word & 0xff, TRAP_OPCODE as u64);

    // continue: the target runs into the trap one byte past main_addr
    assert!(session.continue_allowed());
    assert_eq!(plan_resume(0x400000, session.table()), ResumePlan::FreeResume);
    let stop = Status::Stopped(TRAP_SIGNAL, main_addr + 1);
    session.on_status(&stop);
    assert!(session.continue_allowed());
    assert_eq!(breakpoint_site(&stop, session.table()), Some(main_addr));

    // second continue: step over the breakpoint, then run to exit
    let plan = plan_resume(main_addr + 1, session.table());
    assert_eq!(plan, ResumePlan::StepOver { addr: main_addr, saved: 0x55 });
    if let ResumePlan::StepOver { addr, saved } = plan {
        // restore the original byte: the word is byte-identical again
        let (trap, restored) = splice_byte(word, off, saved);
        assert_eq!(trap, TRAP_OPCODE);
        assert_eq!(restored, 0x4883ec0889d62055);
        word = restored;
        // one single step past the instruction, still alive: re-arm
        let step_stop = Status::Stopped(TRAP_SIGNAL, addr + 1);
        assert!(should_rearm_after_step(&step_stop));
        let (orig, patched) = splice_byte(word, off, TRAP_OPCODE);
        assert_eq!(orig, 0x55);
        word = patched;
    }
    // free resume: the program returns 0 with no further breakpoints hit
    let done = Status::Exited(0);
    session.on_status(&done);
    assert!(!session.continue_allowed());
    assert_eq!(word & 0xff, TRAP_OPCODE as u64);
}

#[test]
fn unresolvable_token_refused() {
    let mut session = Session::new();
    session.register_breakpoint(0x1000);
    let before = session.breakpoint_count();

    let plan = plan_break("nosuchfunc");
    assert_eq!(plan, BreakPlan::TryFunction);
    let resolved = resolve_break(&plan, None, None);
    assert!(resolved.is_none());

    // nothing resolved: no registration happens, the message names the token
    assert_eq!(session.breakpoint_count(), before);
    let msg = unresolved_message("nosuchfunc");
    assert!(msg.contains("nosuchfunc"));
}
