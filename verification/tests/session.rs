use debugrs::context::low_byte;
use debugrs::context::with_low_byte;
use debugrs::context::Breakpoint;
use debugrs::context::Context;
use debugrs::context::TRAP_OPCODE;
use debugrs::debugger::handle_wait_event;
use debugrs::debugger::process_user_instruction;
use debugrs::debugger::resume_plan;
use debugrs::debugger::CommandOutcome;
use debugrs::debugger::ResumeAction;
use debugrs::debugger::ResumeMode;
use debugrs::debugger::StopReport;
use debugrs::trace::WaitEvent;
use debugrs::user_instruction::UserInstruction;

#[test]
fn natural_exit_ends_the_session() {
    // No breakpoints set; the tracee runs to completion and the
    // session must report the exit code and terminate.
    let context = Context::new();
    let report = handle_wait_event(1, WaitEvent::Exited { code: 0 }, &context).unwrap();
    assert_eq!(report, StopReport::Exited { code: 0 });
    assert!(report.ends_session());
}

#[test]
fn exit_code_is_passed_through() {
    let context = Context::new();
    let report = handle_wait_event(1, WaitEvent::Exited { code: 42 }, &context).unwrap();
    assert_eq!(report, StopReport::Exited { code: 42 });
}

#[test]
fn non_exit_stops_do_not_end_the_session() {
    let context = Context::new();
    let report = handle_wait_event(1, WaitEvent::Continued, &context).unwrap();
    assert_eq!(
        report,
        StopReport::OtherStop {
            event: WaitEvent::Continued
        }
    );
    assert!(!report.ends_session());
}

#[test]
fn resume_plan_steps_before_installing_breakpoints() {
    // Forward progress: a single step must come before breakpoints
    // are installed, and the installation before the resume itself.
    for mode in [ResumeMode::UntilBreakpoint, ResumeMode::UntilSyscall] {
        let plan = resume_plan(mode);
        assert_eq!(
            plan,
            vec![
                ResumeAction::StepOnce,
                ResumeAction::AwaitStop,
                ResumeAction::InstallBreakpoints,
                ResumeAction::Resume(mode),
            ]
        );
        let step = plan
            .iter()
            .position(|a| *a == ResumeAction::StepOnce)
            .unwrap();
        let install = plan
            .iter()
            .position(|a| *a == ResumeAction::InstallBreakpoints)
            .unwrap();
        assert!(step < install);
    }
}

#[test]
fn breakpoint_hit_scenario_at_the_model_level() {
    // Breakpoint at 0xdead; the word there has every other byte
    // non-zero so corruption would show.
    let word: u64 = 0x4889e5c35500babe;
    let mut context = Context::new();
    context.add_breakpoint(Breakpoint {
        address: 0xdead,
        previous_byte: low_byte(word),
    });
    assert_eq!(context.breakpoint_count(), 1);

    // The tracee traps: its instruction pointer stops at 0xdead + 1,
    // and recovery looks up the address one byte back.
    let hit = context.breakpoint_at(0xdead + 1 - 1).unwrap();
    assert_eq!(hit.address, 0xdead);

    // Restoring the displaced byte undoes the installed patch, so a
    // later memory inspection sees the original word.
    let installed = with_low_byte(word, TRAP_OPCODE);
    assert_eq!(low_byte(installed), TRAP_OPCODE);
    let restored = with_low_byte(installed, hit.previous_byte);
    assert_eq!(restored, word);

    // An instruction pointer that matches no breakpoint recovers
    // nothing.
    assert_eq!(context.breakpoint_at(0x9999), None);
}

#[test]
fn help_always_succeeds_without_touching_the_tracee() {
    // Even against a process that does not exist, help is owed.
    let mut context = Context::new();
    let outcome = process_user_instruction(999999999, &UserInstruction::ShowHelp, &mut context);
    assert!(matches!(outcome, Ok(CommandOutcome::HelpRequested)));
}

#[test]
fn empty_store_installs_and_removes_nothing_successfully() {
    // With no breakpoints recorded there is nothing to write, so both
    // passes succeed even against a process that does not exist.
    let context = Context::new();
    assert!(context.apply_breakpoints(999999999).is_ok());
    assert!(context.remove_breakpoints(999999999).is_ok());
}

#[test]
fn non_trap_stop_with_empty_store_is_classified() {
    let context = Context::new();
    // SIGCHLD (17) is not the trap signal; nothing is owed to the
    // kernel with an empty store, so the classification is exact.
    let report = handle_wait_event(999999999, WaitEvent::Stopped { signal: 17 }, &context).unwrap();
    assert_eq!(
        report,
        StopReport::OtherStop {
            event: WaitEvent::Stopped { signal: 17 }
        }
    );
}

#[test]
fn trap_recovery_on_a_dead_process_surfaces_the_error() {
    // A trap-signal stop forces register reads against the tracee;
    // with no such process the kernel's refusal must be surfaced.
    let mut context = Context::new();
    context.add_breakpoint(Breakpoint {
        address: 0x1000,
        previous_byte: 0x90,
    });
    let result = handle_wait_event(999999999, WaitEvent::Stopped { signal: 5 }, &context);
    assert!(result.is_err());
}
