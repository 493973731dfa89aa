//! An interpreter core for the CHIP-8 virtual machine: decoding of the
//! two-byte instructions, their execution over memory, registers, call stack,
//! framebuffer and timers, each stated over a mathematical model of the machine.

pub mod instruction;
pub mod machine;
pub mod nibble;
pub mod proofs;
pub mod types;

pub use instruction::{decode, Instruction};
pub use machine::{
    Fault, FaultKind, Mode, CHIP8, DISPLAY_HEIGHT, DISPLAY_WIDTH, FLAG, FONT_START, MEMORY_SIZE,
    PROGRAM_MEMORY_START, REGISTER_SIZE, STACK_LIMIT,
};
pub use nibble::{
    address_from_nibbles, from_low_and_high, from_nibbles, high_nibble, low_and_high_nibbles,
    low_nibble,
};
pub use types::Registers;
