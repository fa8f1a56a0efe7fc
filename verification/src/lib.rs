//! An interpreter core for the CHIP-8 virtual machine.
//!
//! The crate holds the whole emulated machine: 4 KiB of memory with the
//! built-in font, sixteen 8-bit registers, the call stack, the two timers,
//! the 64x32 monochrome display and the sixteen-key keypad. Every operation
//! is specified against a mathematical model of the machine,
//! [`MachineState`], and proved to follow it.
//!
//! Choices that the instruction set leaves to an interpreter, as made here:
//!
//! * A program image may fill memory to its last byte; a longer one is
//!   refused before the machine is touched.
//! * A call pushes the address of the instruction after it, and a return
//!   continues at the address it pops.
//! * The flag-setting instructions `8XY4` to `8XY7` and `8XYE` compute result
//!   and flag from the operands, write the result to `VX` and then the flag
//!   to `VF`. The shifts shift `VX` in place.
//! * `FX1E` wraps at 16 bits and leaves `VF` alone; `FX55` and `FX65` leave
//!   `I` alone; `FX29` sets `I` to five times `VX`.
//! * `EX9E` and `EXA1` treat a register value above 15 as a key that is not
//!   down.
//! * `FX0A` always suspends the machine, also while keys are held. The next
//!   key press completes it.
//! * A sprite is clipped nowhere: each of its pixels wraps around the edges.
//! * An instruction that would read or write beyond the end of memory
//!   through `I` fails and changes nothing.
//!
//! The windowing, keyboard and sound of a host program stay outside; what a
//! host has to decide around the machine is in [`host`].

pub mod arithmetic;
pub mod display;
mod entropy;
pub mod error;
pub mod host;
pub mod instruction;
pub mod laws;
pub mod machine;
pub mod state;

pub use display::{DISPLAY_SIZE, SCREEN_HEIGHT, SCREEN_WIDTH};
pub use error::Chip8Error;
pub use instruction::{decode, Instruction};
pub use machine::Machine;
pub use state::{
    MachineState, FONT_DATA, FONT_SIZE, GLYPH_SIZE, KEY_COUNT, MAX_PROGRAM_SIZE, MEMORY_SIZE,
    PROGRAM_START, REGISTER_COUNT, STACK_DEPTH,
};
