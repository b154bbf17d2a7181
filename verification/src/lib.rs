//! A CHIP-8 virtual machine: a fetch-decode-execute interpreter for the
//! classic 16-bit opcode family, with a 4096-byte memory, sixteen 8-bit
//! registers, a 64x32 monochrome framebuffer, countdown timers, and a
//! configurable shift quirk.
//!
//! The machine semantics are stated as spec-level transition functions over a
//! mathematical view of the machine state, and every instruction handler is
//! proved to implement its transition exactly.

mod console;
mod error;
mod instruction;
mod keyboard;
mod laws;
mod machine;

pub use console::Console;
pub use error::Chip8Error;
pub use instruction::Instruction;
pub use instruction::spec_decode;
pub use keyboard::KeyState;
pub use machine::Chip8;
pub use machine::Machine;
pub use machine::SoundCommand;
pub use machine::CYCLE_HZ;
pub use machine::CYCLE_MICROS;
pub use machine::DISPLAY_HEIGHT;
pub use machine::DISPLAY_HZ;
pub use machine::DISPLAY_MICROS;
pub use machine::DISPLAY_SIZE;
pub use machine::DISPLAY_WIDTH;
pub use machine::FONT_SIZE;
pub use machine::KEY_SIZE;
pub use machine::MEMORY_SIZE;
pub use machine::REGISTERS_SIZE;
pub use machine::ROM_CAPACITY;
pub use machine::ROM_START_ADDRESS;
pub use machine::STACK_SIZE;
pub use machine::TIMER_HZ;
pub use machine::TIMER_MICROS;
