//! The trusted boundary to the tracing syscalls: one small wrapper per
//! outside call. Everything a wrapper returns depends on the traced
//! process, which the kernel owns, so the wrappers promise nothing of
//! the values; the verified callers state what holds whatever comes
//! back.

use nix::sys::ptrace;
use nix::sys::wait::waitpid;
use nix::sys::wait::WaitStatus;
use nix::unistd::Pid;
use vstd::prelude::*;

verus! {

/// A kernel-rejected tracing operation, carrying the raw `errno`
/// value the kernel reported.
#[derive(Clone, Copy, PartialEq, Eq, Structural, Debug)]
pub struct TraceError {
    pub errno: i32,
}

/// What `wait` observed of the traced process: one variant per kind of
/// process-state change the kernel reports.
#[derive(Clone, Copy, PartialEq, Eq, Structural, Debug)]
pub enum WaitEvent {
    /// The process exited normally with the given code.
    Exited { code: i32 },
    /// The process was killed by the given signal.
    Terminated { signal: i32, core_dumped: bool },
    /// The process is alive but suspended by the given signal.
    Stopped { signal: i32 },
    /// The process was suspended by a ptrace event of the given kind.
    TraceEvent { signal: i32, event: i32 },
    /// The process was suspended at a system-call boundary.
    SyscallBoundary,
    /// The process resumed after a continue signal.
    Continued,
    /// No state change was available to report.
    StillAlive,
}

/// A register snapshot of the stopped tracee. The instruction pointer
/// is held as a plain value, which the recovery logic reads and
/// rewrites; the rest of the snapshot is carried through opaquely in
/// `raw` and written back verbatim.
pub struct Registers {
    /// The instruction pointer; authoritative over the copy in `raw`.
    pub rip: u64,
    /// The full snapshot as the kernel delivered it.
    pub raw: nix::libc::user_regs_struct,
}

#[verifier::external_type_specification]
#[verifier::external_body]
pub struct ExUserRegsStruct(nix::libc::user_regs_struct);

/// Relies on nix::sys::ptrace::read: returns the machine word at
/// `address` in the tracee's memory. The value depends on the tracee,
/// so nothing is promised of it.
#[verifier::external_body]
pub(crate) fn read_word(pid: i32, address: u64) -> Result<u64, TraceError> {
    match ptrace::read(Pid::from_raw(pid), address as ptrace::AddressType) {
        Ok(word) => Ok(word as u64),
        Err(e) => Err(TraceError { errno: e as i32 }),
    }
}

/// Relies on nix::sys::ptrace::write: stores `word` at `address` in
/// the tracee's memory.
#[verifier::external_body]
pub(crate) fn write_word(pid: i32, address: u64, word: u64) -> Result<(), TraceError> {
    match ptrace::write(Pid::from_raw(pid), address as ptrace::AddressType, word as i64) {
        Ok(()) => Ok(()),
        Err(e) => Err(TraceError { errno: e as i32 }),
    }
}

/// Relies on nix::sys::ptrace::getregs: reads the tracee's register
/// snapshot. The snapshot depends on the tracee, so nothing is
/// promised of it; the instruction pointer is copied out as a plain
/// value beside the raw snapshot.
#[verifier::external_body]
pub(crate) fn get_registers(pid: i32) -> Result<Registers, TraceError> {
    match ptrace::getregs(Pid::from_raw(pid)) {
        Ok(raw) => Ok(Registers { rip: raw.rip, raw }),
        Err(e) => Err(TraceError { errno: e as i32 }),
    }
}

/// Relies on nix::sys::ptrace::setregs: writes `regs.raw` back to the
/// tracee, with its instruction pointer field replaced by `regs.rip`.
#[verifier::external_body]
pub(crate) fn set_registers(pid: i32, regs: Registers) -> Result<(), TraceError> {
    let mut raw = regs.raw;
    raw.rip = regs.rip;
    match ptrace::setregs(Pid::from_raw(pid), raw) {
        Ok(()) => Ok(()),
        Err(e) => Err(TraceError { errno: e as i32 }),
    }
}

/// Relies on nix::sys::ptrace::step: resumes the tracee for a single
/// instruction.
#[verifier::external_body]
pub(crate) fn single_step(pid: i32) -> Result<(), TraceError> {
    match ptrace::step(Pid::from_raw(pid), None) {
        Ok(()) => Ok(()),
        Err(e) => Err(TraceError { errno: e as i32 }),
    }
}

/// Relies on nix::sys::ptrace::cont: resumes the tracee until its next
/// stop.
#[verifier::external_body]
pub(crate) fn resume(pid: i32) -> Result<(), TraceError> {
    match ptrace::cont(Pid::from_raw(pid), None) {
        Ok(()) => Ok(()),
        Err(e) => Err(TraceError { errno: e as i32 }),
    }
}

/// Relies on nix::sys::ptrace::syscall: resumes the tracee until the
/// next system-call boundary or other stop.
#[verifier::external_body]
pub(crate) fn resume_until_syscall(pid: i32) -> Result<(), TraceError> {
    match ptrace::syscall(Pid::from_raw(pid), None) {
        Ok(()) => Ok(()),
        Err(e) => Err(TraceError { errno: e as i32 }),
    }
}

/// Relies on nix::sys::wait::waitpid: blocks until the tracee changes
/// state and reports how, one arm per kind of report. Which event
/// comes depends on the tracee, so nothing is promised of it.
#[verifier::external_body]
pub(crate) fn wait_for_stop(pid: i32) -> Result<WaitEvent, TraceError> {
    match waitpid(Pid::from_raw(pid), None) {
        Ok(WaitStatus::Exited(_, code)) => Ok(WaitEvent::Exited { code }),
        Ok(WaitStatus::Signaled(_, s, core)) => Ok(WaitEvent::Terminated { signal: s as i32, core_dumped: core }),
        Ok(WaitStatus::Stopped(_, s)) => Ok(WaitEvent::Stopped { signal: s as i32 }),
        Ok(WaitStatus::PtraceEvent(_, s, event)) => Ok(WaitEvent::TraceEvent { signal: s as i32, event }),
        Ok(WaitStatus::PtraceSyscall(_)) => Ok(WaitEvent::SyscallBoundary),
        Ok(WaitStatus::Continued(_)) => Ok(WaitEvent::Continued),
        Ok(WaitStatus::StillAlive) => Ok(WaitEvent::StillAlive),
        Err(e) => Err(TraceError { errno: e as i32 }),
    }
}

} // verus!
