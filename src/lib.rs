//! An emulator for a 16-bit educational register machine: eight general
//! purpose registers, a 65536-word memory, sixteen opcodes and a small set of
//! trap services for character I/O.
//!
//! The machine never performs I/O itself: each cycle reports an `Event` that
//! tells the host what to write, when to read a character, and when to stop.
pub mod loader;
pub mod processor;
pub mod registers;
pub mod syscalls;
pub mod utils;
pub mod vm;

pub use loader::{parse_object, LoadError, ObjectImage};
pub use processor::{ExecutionResult, OpCode, Processor};
pub use registers::Registers;
pub use syscalls::{Event, System};
pub use utils::sign_extend;
pub use vm::{Status, VM};
