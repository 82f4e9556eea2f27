//! A verified CHIP-8 interpreter core.
//!
//! The library holds the machine state (memory, registers, stack, timers,
//! framebuffer, keypad) and executes the canonical 35-instruction opcode
//! set one fetch-decode-execute step at a time. Window, keyboard and audio
//! handling live outside the library; they feed the keypad in and read the
//! framebuffer and sound state out as plain values.

pub mod cycle;
pub mod decode;
pub mod draw;
pub mod laws;
pub mod machine;

pub use decode::Instruction;
pub use machine::Chip8;
pub use machine::CycleStatus;
pub use machine::Fault;
pub use machine::LoadError;
