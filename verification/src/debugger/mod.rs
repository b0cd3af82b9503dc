//! The debugger that works on 32-bit words of target memory: its memory and
//! register cache, stack unwinding and stack frames.
pub mod memory_and_registers;
pub mod evaluate;
pub mod stacktrace;
pub mod stack_frame;
pub mod variable;

pub use crate::rust_debug::utils;
pub use crate::rust_debug::find_breakpoint_location;
