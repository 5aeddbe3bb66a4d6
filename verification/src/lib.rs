//! Core of an interactive process-level debugger, together with the small
//! verified kernels of its sibling tools (a connection proxy's decision rules,
//! a parallel map's result assembly, and a singly linked list).
//!
//! The debugger core coordinates byte-level breakpoint patching with rollback,
//! a step-over-breakpoint resume protocol, and a session state machine that
//! owns at most one live traced target.  Everything that touches the operating
//! system (process spawning, trace control, terminal input) lives outside this
//! library and hands plain values in and out.

pub mod backtrace;
pub mod breakpoints;
pub mod command;
pub mod engine;
pub mod gather;
pub mod list;
pub mod patch;
pub mod proxy;
pub mod resolve;
pub mod session;

pub use patch::align_addr_to_word;
