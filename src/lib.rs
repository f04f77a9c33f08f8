//! A CHIP-8 virtual machine core: decoder, instruction semantics, timers,
//! keypad latch and framebuffer, each stated as a contract and proved.

pub mod error;
pub mod execute;
pub mod instruction;
pub mod keypad;
pub mod laws;
pub mod machine;
pub mod semantics;

pub use error::Chip8Error;
pub use instruction::{decode, Instruction};
pub use keypad::key_for;
pub use machine::{
    Chip8, FONT_SIZE, MEMORY_SIZE, NUM_KEYS, NUM_REGISTERS, PROGRAM_START, SCREEN_CELLS,
    SCREEN_HEIGHT, SCREEN_WIDTH, STACK_DEPTH,
};
