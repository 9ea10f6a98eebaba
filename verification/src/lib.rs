//! Verified core of a small RISC-V teaching kernel: console protocol over
//! SBI calls, line editing, a bump allocator, a cooperative process scheduler
//! and the fatal trap report.

pub mod sbicall;
pub mod proc;
pub mod malloc;
pub mod io;
pub mod trap;
