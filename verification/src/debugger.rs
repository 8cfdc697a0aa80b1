//! The execution controller: dispatches one user command against the
//! tracing boundary and the breakpoint store, and classifies each stop
//! the tracee reports.
//!
//! The delicate command is a long-running resume. The tracee's current
//! instruction pointer may itself sit on a breakpointed address, and
//! installing the traps before moving off it would make the process
//! re-trap in place with no forward progress. The controller therefore
//! follows a fixed plan: single-step first, wait for that step, only
//! then install the breakpoints, and only then issue the long-running
//! resume.

use vstd::prelude::*;

use crate::context::has_addr;
use crate::context::low_byte;
use crate::context::spec_add;
use crate::context::Breakpoint;
use crate::context::Context;
use crate::context::restore_breakpoint_if_needed;
use crate::trace;
use crate::trace::Registers;
use crate::trace::TraceError;
use crate::trace::WaitEvent;
use crate::user_instruction::UserInstruction;

verus! {

/// The signal number of the trap that a breakpoint raises.
pub const TRAP_SIGNAL: i32 = 5;

/// The two long-running ways to resume the tracee.
#[derive(Clone, Copy, PartialEq, Eq, Structural, Debug)]
pub enum ResumeMode {
    /// Run until a breakpoint trap or any other stop.
    UntilBreakpoint,
    /// Run until the next system-call boundary or any other stop.
    UntilSyscall,
}

/// One step of the resume protocol.
#[derive(Clone, Copy, PartialEq, Eq, Structural, Debug)]
pub enum ResumeAction {
    /// Advance the tracee by a single instruction.
    StepOnce,
    /// Block until the tracee reports a stop.
    AwaitStop,
    /// Write every stored breakpoint's trap byte into the tracee.
    InstallBreakpoints,
    /// Issue the long-running resume itself.
    Resume(ResumeMode),
}

/// The protocol for a long-running resume: step off the current
/// instruction, wait for that step, install the breakpoints, resume.
pub open spec fn spec_resume_plan(mode: ResumeMode) -> Seq<ResumeAction> {
    seq![
        ResumeAction::StepOnce,
        ResumeAction::AwaitStop,
        ResumeAction::InstallBreakpoints,
        ResumeAction::Resume(mode),
    ]
}

/// Law: the resume protocol makes forward progress before any trap can
/// fire. A single step stands strictly before every installation of
/// breakpoints, and the installation stands strictly before every
/// resume, so the tracee always advances at least one instruction
/// before a trap byte it is standing on could be (re)written.
pub proof fn lemma_resume_plan_steps_before_installing(mode: ResumeMode)
    ensures
        ({
            let p = spec_resume_plan(mode);
            &&& p.len() == 4
            &&& p[0] == ResumeAction::StepOnce
            &&& forall|i: int|
                0 <= i < p.len() && #[trigger] p[i] == ResumeAction::InstallBreakpoints ==> 0 < i
                    && p[0] == ResumeAction::StepOnce
            &&& forall|i: int|
                0 <= i < p.len() && ((#[trigger] p[i]) matches ResumeAction::Resume(_)) ==> 2 < i
                    && p[2] == ResumeAction::InstallBreakpoints
        }),
{
}

/// The resume protocol as a value, for the interpreter below.
pub fn resume_plan(mode: ResumeMode) -> (p: Vec<ResumeAction>)
    ensures
        p@ == spec_resume_plan(mode),
{
    let mut p: Vec<ResumeAction> = Vec::new();
    p.push(ResumeAction::StepOnce);
    p.push(ResumeAction::AwaitStop);
    p.push(ResumeAction::InstallBreakpoints);
    p.push(ResumeAction::Resume(mode));
    proof {
        assert(p@ =~= spec_resume_plan(mode));
    }
    p
}

/// Performs one step of the resume protocol against the tracee.
fn perform_action(pid: i32, action: ResumeAction, context: &Context) -> Result<(), TraceError>
    requires
        context.wf(),
{
    match action {
        ResumeAction::StepOnce => trace::single_step(pid),
        ResumeAction::AwaitStop => {
            match trace::wait_for_stop(pid) {
                Ok(_) => Ok(()),
                Err(e) => Err(e),
            }
        },
        ResumeAction::InstallBreakpoints => context.apply_breakpoints(pid),
        ResumeAction::Resume(ResumeMode::UntilBreakpoint) => trace::resume(pid),
        ResumeAction::Resume(ResumeMode::UntilSyscall) => trace::resume_until_syscall(pid),
    }
}

/// Runs the resume protocol in order, stopping at the first failure.
pub(crate) fn perform_resume(pid: i32, mode: ResumeMode, context: &Context) -> Result<(), TraceError>
    requires
        context.wf(),
{
    let plan = resume_plan(mode);
    let n = plan.len();
    let mut i: usize = 0;
    while i < n
        invariant
            0 <= i <= n,
            n == plan.len(),
            context.wf(),
        decreases n - i,
    {
        match perform_action(pid, plan[i], context) {
            Ok(()) => {},
            Err(e) => {
                return Err(e);
            },
        }
        i += 1;
    }
    Ok(())
}

/// What a synchronously handled command produced, for the presenter.
pub enum CommandOutcome {
    /// The tracee was set running; the caller must wait for its stop.
    Resumed,
    /// A breakpoint was recorded (or already known) at the address.
    BreakpointAdded,
    /// The machine word read from the tracee's memory.
    MemoryWord { value: u64 },
    /// The tracee's register snapshot.
    RegisterSnapshot { registers: Registers },
    /// The user asked for the command summary.
    HelpRequested,
}

/// The outcome variant each instruction produces on success.
pub open spec fn outcome_fits(instruction: UserInstruction, outcome: CommandOutcome) -> bool {
    match instruction {
        UserInstruction::ContinueUntilBreakpoint => outcome is Resumed,
        UserInstruction::ContinueUntilSyscall => outcome is Resumed,
        UserInstruction::SingleStep => outcome is Resumed,
        UserInstruction::AddBreakpoint { .. } => outcome is BreakpointAdded,
        UserInstruction::ShowMemory { .. } => outcome is MemoryWord,
        UserInstruction::ShowRegisters => outcome is RegisterSnapshot,
        UserInstruction::ShowHelp => outcome is HelpRequested,
    }
}

/// Dispatches one user instruction against the stopped tracee.
///
/// Inspection commands run synchronously and return their value; the
/// three run commands set the tracee moving and return `Resumed`, and
/// the caller must then await the stop. Adding a breakpoint captures
/// the byte currently at the address as the displaced byte, unless the
/// address is already known, in which case the store is left exactly
/// as it was (re-capturing after installation would record the trap
/// byte itself). Only `AddBreakpoint` ever changes the store. The
/// help command touches the tracee not at all and always succeeds;
/// every other command can fail only through the kernel.
pub fn process_user_instruction(
    pid: i32,
    user_instruction: &UserInstruction,
    context: &mut Context,
) -> (r: Result<CommandOutcome, TraceError>)
    requires
        old(context).wf(),
    ensures
        final(context).wf(),
        (!(user_instruction is AddBreakpoint) ==> final(context)@ == old(context)@),
        (r matches Ok(outcome) ==> outcome_fits(*user_instruction, outcome)),
        (user_instruction is ShowHelp ==> r is Ok),
        (user_instruction matches UserInstruction::AddBreakpoint { address } ==> (r is Ok
            ==> exists|b: Breakpoint|
                b.address == address && final(context)@ == spec_add(old(context)@, b))),
        (r is Err ==> final(context)@ == old(context)@),
{
    match user_instruction {
        UserInstruction::ContinueUntilBreakpoint => {
            match perform_resume(pid, ResumeMode::UntilBreakpoint, context) {
                Ok(()) => Ok(CommandOutcome::Resumed),
                Err(e) => Err(e),
            }
        },
        UserInstruction::ContinueUntilSyscall => {
            match perform_resume(pid, ResumeMode::UntilSyscall, context) {
                Ok(()) => Ok(CommandOutcome::Resumed),
                Err(e) => Err(e),
            }
        },
        UserInstruction::SingleStep => {
            match trace::single_step(pid) {
                Ok(()) => Ok(CommandOutcome::Resumed),
                Err(e) => Err(e),
            }
        },
        UserInstruction::ShowHelp => Ok(CommandOutcome::HelpRequested),
        UserInstruction::ShowMemory { address } => {
            match trace::read_word(pid, *address) {
                Ok(value) => Ok(CommandOutcome::MemoryWord { value }),
                Err(e) => Err(e),
            }
        },
        UserInstruction::ShowRegisters => {
            match trace::get_registers(pid) {
                Ok(registers) => Ok(CommandOutcome::RegisterSnapshot { registers }),
                Err(e) => Err(e),
            }
        },
        UserInstruction::AddBreakpoint { address } => {
            let previous_word = match trace::read_word(pid, *address) {
                Ok(w) => w,
                Err(e) => {
                    return Err(e);
                },
            };
            let breakpoint = Breakpoint {
                address: *address,
                previous_byte: low_byte(previous_word),
            };
            context.add_breakpoint(breakpoint);
            Ok(CommandOutcome::BreakpointAdded)
        },
    }
}

/// What one stop of the tracee came to, for the presenter.
#[derive(Clone, Copy, PartialEq, Eq, Structural, Debug)]
pub enum StopReport {
    /// The tracee exited with the given code; the session is over.
    Exited { code: i32 },
    /// The tracee hit the breakpoint at the given address; its
    /// displaced byte and the instruction pointer are restored.
    BreakpointHit { address: u64 },
    /// A trap stop that matched no breakpoint: a completed single
    /// step, or a trap raised by the program itself.
    SteppedOrTrapped,
    /// Any other stop, reported as the kernel described it.
    OtherStop { event: WaitEvent },
}

impl StopReport {
    /// Whether this report ends the debugging session.
    pub fn ends_session(&self) -> (b: bool)
        ensures
            b <==> self matches StopReport::Exited { .. },
    {
        match self {
            StopReport::Exited { .. } => true,
            _ => false,
        }
    }
}

/// Classifies one reported stop and cleans the tracee up for
/// inspection.
///
/// An exit ends the session and touches nothing. A trap-signal stop
/// first removes every breakpoint from the tracee's memory, so later
/// inspection sees unpatched code, then runs trap recovery: a hit is
/// reported with its address if the instruction pointer sat one byte
/// past a stored breakpoint. Any other stop also removes the
/// breakpoints defensively and is reported as it came. A trap stop
/// handled successfully is always reported as a hit or as a completed
/// step, never as any other stop. The store itself never changes
/// here; only the tracee's memory does. With an empty store a
/// non-trap stop makes no kernel call, so its classification is owed
/// and promised.
pub fn handle_wait_event(pid: i32, event: WaitEvent, context: &Context) -> (r: Result<StopReport, TraceError>)
    requires
        context.wf(),
    ensures
        (event matches WaitEvent::Exited { code } ==> r == Ok::<StopReport, TraceError>(
            StopReport::Exited { code },
        )),
        (r matches Ok(StopReport::Exited { code }) ==> event == (WaitEvent::Exited { code })),
        (r matches Ok(StopReport::BreakpointHit { address }) ==> has_addr(context@, address)
            && event == (WaitEvent::Stopped { signal: TRAP_SIGNAL })),
        (r matches Ok(StopReport::SteppedOrTrapped) ==> event == (WaitEvent::Stopped {
            signal: TRAP_SIGNAL,
        })),
        (event == (WaitEvent::Stopped { signal: TRAP_SIGNAL }) && r is Ok ==> ((r matches Ok(
            StopReport::BreakpointHit { .. },
        )) || r == Ok::<StopReport, TraceError>(StopReport::SteppedOrTrapped))),
        (context@.len() == 0 && event == (WaitEvent::Stopped { signal: TRAP_SIGNAL }) && r is Ok
            ==> r == Ok::<StopReport, TraceError>(StopReport::SteppedOrTrapped)),
        (r matches Ok(StopReport::OtherStop { event: reported }) ==> reported == event && !(event
            is Exited)),
        (context@.len() == 0 && !(event is Exited) && !(event is Stopped) ==> r == Ok::<
            StopReport,
            TraceError,
        >(StopReport::OtherStop { event })),
        (context@.len() == 0 ==> ((event matches WaitEvent::Stopped { signal } && signal
            != TRAP_SIGNAL) ==> r == Ok::<StopReport, TraceError>(StopReport::OtherStop {
            event,
        }))),
{
    match event {
        WaitEvent::Exited { code } => Ok(StopReport::Exited { code }),
        WaitEvent::Stopped { signal } => {
            match context.remove_breakpoints(pid) {
                Ok(()) => {},
                Err(e) => {
                    return Err(e);
                },
            }
            if signal == TRAP_SIGNAL {
                match restore_breakpoint_if_needed(pid, context) {
                    Ok(Some(breakpoint)) => Ok(StopReport::BreakpointHit {
                        address: breakpoint.address,
                    }),
                    Ok(None) => Ok(StopReport::SteppedOrTrapped),
                    Err(e) => Err(e),
                }
            } else {
                Ok(StopReport::OtherStop { event })
            }
        },
        _ => {
            match context.remove_breakpoints(pid) {
                Ok(()) => {},
                Err(e) => {
                    return Err(e);
                },
            }
            Ok(StopReport::OtherStop { event })
        },
    }
}

/// Blocks until the tracee stops, then classifies the stop as
/// `handle_wait_event` does. A failure of the wait itself is surfaced;
/// the caller treats it as fatal, since the tracee's state is then
/// unknown.
pub fn await_stop(pid: i32, context: &Context) -> (r: Result<StopReport, TraceError>)
    requires
        context.wf(),
    ensures
        (r matches Ok(StopReport::BreakpointHit { address }) ==> has_addr(context@, address)),
{
    match trace::wait_for_stop(pid) {
        Ok(event) => handle_wait_event(pid, event, context),
        Err(e) => Err(e),
    }
}

} // verus!
