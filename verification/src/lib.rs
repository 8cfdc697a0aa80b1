//! A minimal process debugger core: software-breakpoint bookkeeping,
//! trap recovery, and execution-control sequencing for a traced child
//! process, with the tracing syscalls reached through a thin trusted
//! boundary.

pub mod context;
pub mod debugger;
pub mod trace;
pub mod user_instruction;
