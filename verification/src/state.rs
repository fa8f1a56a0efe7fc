//! The mathematical model of the machine, and what each operation does to it.
//!
//! Everything here is specification: [`MachineState`] is the view of a
//! [`crate::machine::Machine`], and the functions on it say, as plain
//! mathematics, what loading a program, running one cycle, a timer tick and a
//! key event mean. The executable machine is proved against them.

use vstd::prelude::*;
use crate::display::{collides, draw_spec};
use crate::error::Chip8Error;
use crate::instruction::{decode_spec, Instruction};

verus! {

/// Bytes of addressable memory.
pub const MEMORY_SIZE: usize = 4096;

/// Address at which a program image is placed and where execution starts.
pub const PROGRAM_START: u16 = 0x200;

/// The largest program image that fits between [`PROGRAM_START`] and the end
/// of memory. An image of exactly this length is accepted.
pub const MAX_PROGRAM_SIZE: usize = 3584;

/// Number of general registers, `V0` to `VF`.
pub const REGISTER_COUNT: usize = 16;

/// Number of return addresses that the call stack holds.
pub const STACK_DEPTH: usize = 16;

/// Number of keys on the keypad.
pub const KEY_COUNT: usize = 16;

/// Bytes of one font glyph.
pub const GLYPH_SIZE: u16 = 5;

/// Bytes of the built-in font: sixteen glyphs of five bytes.
pub const FONT_SIZE: usize = 80;

/// The built-in font, one glyph per hexadecimal digit, five rows of four
/// pixels each in the high half of a byte. It occupies memory from address 0.
pub const FONT_DATA: [u8; 80] = [
    0xF0, 0x90, 0x90, 0x90, 0xF0,
    0x20, 0x60, 0x20, 0x20, 0x70,
    0xF0, 0x10, 0xF0, 0x80, 0xF0,
    0xF0, 0x10, 0xF0, 0x10, 0xF0,
    0x90, 0x90, 0xF0, 0x10, 0x10,
    0xF0, 0x80, 0xF0, 0x10, 0xF0,
    0xF0, 0x80, 0xF0, 0x90, 0xF0,
    0xF0, 0x10, 0x20, 0x40, 0x40,
    0xF0, 0x90, 0xF0, 0x90, 0xF0,
    0xF0, 0x90, 0xF0, 0x10, 0xF0,
    0xF0, 0x90, 0xF0, 0x90, 0x90,
    0xE0, 0x90, 0xE0, 0x90, 0xE0,
    0xF0, 0x80, 0x80, 0x80, 0xF0,
    0xE0, 0x90, 0x90, 0x90, 0xE0,
    0xF0, 0x80, 0xF0, 0x80, 0xF0,
    0xF0, 0x80, 0xF0, 0x80, 0x80,
];

/// The whole state of the machine as mathematical values.
///
/// `stack` holds the return addresses that are live, oldest first, so the
/// stack pointer is its length. `awaiting_key` is `Some(x)` while a
/// wait-for-key instruction is suspended with `VX` as its destination.
#[verifier::ext_equal]
pub struct MachineState {
    pub memory: Seq<u8>,
    pub registers: Seq<u8>,
    pub index_register: u16,
    pub program_counter: u16,
    pub stack: Seq<u16>,
    pub delay_timer: u8,
    pub sound_timer: u8,
    pub display: Seq<bool>,
    pub keypad: Seq<bool>,
    pub awaiting_key: Option<u8>,
}

impl MachineState {
    /// The fixed sizes of the banks, and what holds while the machine waits
    /// for a key: the destination is a register and the suspended
    /// instruction lies inside memory.
    pub open spec fn wf(self) -> bool {
        &&& self.memory.len() == 4096
        &&& self.registers.len() == 16
        &&& self.stack.len() <= 16
        &&& self.display.len() == 2048
        &&& self.keypad.len() == 16
        &&& (self.awaiting_key matches Some(x) ==> x < 16 && self.program_counter <= 0xFFE)
    }

    /// The reset state: font in low memory, everything else zero, execution
    /// about to start at [`PROGRAM_START`].
    pub open spec fn initial() -> MachineState {
        MachineState {
            memory: Seq::new(4096, |a: int| if a < 80 { FONT_DATA@[a] } else { 0u8 }),
            registers: Seq::new(16, |i: int| 0u8),
            index_register: 0,
            program_counter: 0x200,
            stack: Seq::empty(),
            delay_timer: 0,
            sound_timer: 0,
            display: Seq::new(2048, |i: int| false),
            keypad: Seq::new(16, |i: int| false),
            awaiting_key: None,
        }
    }

    /// The reset state with `program` copied to [`PROGRAM_START`].
    pub open spec fn loaded(program: Seq<u8>) -> MachineState {
        MachineState {
            memory: Seq::new(
                4096,
                |a: int|
                    if 0x200 <= a < 0x200 + program.len() {
                        program[a - 0x200]
                    } else {
                        Self::initial().memory[a]
                    },
            ),
            ..Self::initial()
        }
    }

    /// What loading `program` gives: the loaded state, or a refusal where the
    /// image is longer than [`MAX_PROGRAM_SIZE`].
    pub open spec fn load(program: Seq<u8>) -> Result<MachineState, Chip8Error> {
        if program.len() <= 3584 {
            Ok(Self::loaded(program))
        } else {
            Err(Chip8Error::LoadError { length: program.len() as usize })
        }
    }

    /// The value of register `VX`.
    pub open spec fn register(self, x: u8) -> u8 {
        self.registers[x as int]
    }

    /// The state with `VX` set to `value`.
    pub open spec fn with_register(self, x: u8, value: u8) -> MachineState {
        MachineState { registers: self.registers.update(x as int, value), ..self }
    }

    /// The state with the index register set to `value`.
    pub open spec fn with_index(self, value: u16) -> MachineState {
        MachineState { index_register: value, ..self }
    }

    /// The state with execution continuing at `address`.
    pub open spec fn at(self, address: int) -> MachineState {
        MachineState { program_counter: address as u16, ..self }
    }

    /// The state with execution continuing at the next instruction.
    pub open spec fn advance(self) -> MachineState {
        self.at(self.program_counter + 2)
    }

    /// The state with execution continuing at the next instruction, or at
    /// the one after it where `skip` holds.
    pub open spec fn skip_if(self, skip: bool) -> MachineState {
        self.at(self.program_counter + if skip { 4int } else { 2int })
    }

    /// Whether `key` names a key of the keypad that is held down. A value
    /// above 15 names no key, and no key is never held down.
    pub open spec fn key_down(self, key: u8) -> bool {
        key < 16 && self.keypad[key as int]
    }

    /// Whether an access to `count` bytes at the index register leaves
    /// memory. An access to no bytes never does.
    pub open spec fn leaves_memory(self, count: int) -> bool {
        count > 0 && self.index_register + count > 4096
    }

    /// The failure of an access through the index register.
    pub open spec fn memory_fault(self) -> Chip8Error {
        Chip8Error::MemoryOutOfBounds {
            address: self.index_register,
            program_counter: self.program_counter,
        }
    }

    /// The instruction word at the program counter, high byte first, or the
    /// failure to fetch it where its second byte lies beyond memory.
    pub open spec fn fetch(self) -> Result<u16, Chip8Error> {
        let pc = self.program_counter as int;
        if pc + 1 < 4096 {
            Ok((self.memory[pc] * 256 + self.memory[pc + 1]) as u16)
        } else {
            Err(Chip8Error::FetchOutOfBounds { program_counter: self.program_counter })
        }
    }

    /// `2NNN`: the address of the instruction after the call goes on the
    /// stack, and execution continues at `address`. With sixteen addresses
    /// on the stack the call fails.
    pub open spec fn call(self, address: u16) -> Result<MachineState, Chip8Error> {
        if self.stack.len() >= 16 {
            Err(Chip8Error::StackOverflow { program_counter: self.program_counter })
        } else {
            Ok(
                MachineState {
                    stack: self.stack.push((self.program_counter + 2) as u16),
                    ..self
                }.at(address as int),
            )
        }
    }

    /// `00EE`: execution continues at the address last pushed, which leaves
    /// the stack. With an empty stack the return fails.
    pub open spec fn ret(self) -> Result<MachineState, Chip8Error> {
        if self.stack.len() == 0 {
            Err(Chip8Error::StackUnderflow { program_counter: self.program_counter })
        } else {
            Ok(MachineState { stack: self.stack.drop_last(), ..self }.at(self.stack.last() as int))
        }
    }

    /// The result of a flag-setting instruction: `VX` receives `result`
    /// first and `VF` receives `flag` last, so with `X = F` the flag is what
    /// remains.
    pub open spec fn with_result_and_flag(self, x: u8, result: u8, flag: bool) -> MachineState {
        self.with_register(x, result).with_register(
            0xF,
            if flag { 1u8 } else { 0u8 },
        ).advance()
    }

    /// `DXYN`: the sprite of `rows` bytes at the index register is combined
    /// with the display by exclusive or, its top left corner at column
    /// `VX mod 64`, row `VY mod 32`, each of its pixels wrapping around the
    /// edges on its own. `VF` becomes 1 if a lit cell was switched off, else
    /// 0. Fails if the sprite does not lie inside memory.
    pub open spec fn draw(self, x: u8, y: u8, rows: u8) -> Result<MachineState, Chip8Error> {
        if self.leaves_memory(rows as int) {
            Err(self.memory_fault())
        } else {
            let start = self.index_register as int;
            let sprite = if rows == 0 {
                Seq::empty()
            } else {
                self.memory.subrange(start, start + rows)
            };
            let column = self.register(x);
            let row = self.register(y);
            Ok(
                MachineState {
                    display: draw_spec(self.display, sprite, column, row),
                    ..self
                }.with_register(
                    0xF,
                    if collides(self.display, sprite, column, row) {
                        1u8
                    } else {
                        0u8
                    },
                ).advance(),
            )
        }
    }

    /// `FX33`: the hundreds, tens and ones digit of `VX` go to the three
    /// bytes at the index register.
    pub open spec fn store_decimal(self, x: u8) -> Result<MachineState, Chip8Error> {
        if self.leaves_memory(3) {
            Err(self.memory_fault())
        } else {
            let start = self.index_register as int;
            let value = self.register(x);
            Ok(
                MachineState {
                    memory: self.memory.update(start, value / 100).update(
                        start + 1,
                        value / 10 % 10,
                    ).update(start + 2, value % 10),
                    ..self
                }.advance(),
            )
        }
    }

    /// `FX55`: registers `V0..=VX` go to memory at the index register, which
    /// keeps its value.
    pub open spec fn store_registers(self, x: u8) -> Result<MachineState, Chip8Error> {
        if self.leaves_memory(x + 1) {
            Err(self.memory_fault())
        } else {
            let start = self.index_register as int;
            Ok(
                MachineState {
                    memory: Seq::new(
                        4096,
                        |a: int|
                            if start <= a <= start + x {
                                self.registers[a - start]
                            } else {
                                self.memory[a]
                            },
                    ),
                    ..self
                }.advance(),
            )
        }
    }

    /// `FX65`: registers `V0..=VX` are read from memory at the index
    /// register, which keeps its value.
    pub open spec fn load_registers(self, x: u8) -> Result<MachineState, Chip8Error> {
        if self.leaves_memory(x + 1) {
            Err(self.memory_fault())
        } else {
            let start = self.index_register as int;
            Ok(
                MachineState {
                    registers: Seq::new(
                        16,
                        |i: int| if i <= x { self.memory[start + i] } else { self.registers[i] },
                    ),
                    ..self
                }.advance(),
            )
        }
    }

    /// What `instruction` does to the state, `random` being the byte that
    /// the random source hands to `CXNN`.
    ///
    /// Unless the instruction redirects control, the program counter moves
    /// on by 2. A failing instruction has no successor state.
    ///
    /// The definition is opaque to keep proofs about whole cycles small: a
    /// proof that looks into a particular instruction reveals it.
    #[verifier::opaque]
    pub open spec fn execute(self, instruction: Instruction, random: u8) -> Result<
        MachineState,
        Chip8Error,
    > {
        match instruction {
            Instruction::ClearScreen => Ok(
                MachineState { display: Seq::new(2048, |i: int| false), ..self }.advance(),
            ),
            Instruction::Return => self.ret(),
            Instruction::Jump { address } => Ok(self.at(address as int)),
            Instruction::Call { address } => self.call(address),
            Instruction::SkipIfEqual { x, value } => Ok(self.skip_if(self.register(x) == value)),
            Instruction::SkipIfNotEqual { x, value } => Ok(
                self.skip_if(self.register(x) != value),
            ),
            Instruction::SkipIfRegistersEqual { x, y } => Ok(
                self.skip_if(self.register(x) == self.register(y)),
            ),
            Instruction::LoadImmediate { x, value } => Ok(self.with_register(x, value).advance()),
            Instruction::AddImmediate { x, value } => Ok(
                self.with_register(x, ((self.register(x) + value) % 256) as u8).advance(),
            ),
            Instruction::Move { x, y } => Ok(self.with_register(x, self.register(y)).advance()),
            Instruction::Or { x, y } => Ok(
                self.with_register(x, self.register(x) | self.register(y)).advance(),
            ),
            Instruction::And { x, y } => Ok(
                self.with_register(x, self.register(x) & self.register(y)).advance(),
            ),
            Instruction::Xor { x, y } => Ok(
                self.with_register(x, self.register(x) ^ self.register(y)).advance(),
            ),
            Instruction::Add { x, y } => Ok(
                self.with_result_and_flag(
                    x,
                    ((self.register(x) + self.register(y)) % 256) as u8,
                    self.register(x) + self.register(y) > 255,
                ),
            ),
            Instruction::Subtract { x, y } => Ok(
                self.with_result_and_flag(
                    x,
                    ((self.register(x) - self.register(y)) % 256) as u8,
                    self.register(x) >= self.register(y),
                ),
            ),
            Instruction::ShiftRight { x, y } => Ok(
                self.with_result_and_flag(
                    x,
                    self.register(x) / 2,
                    self.register(x) % 2 == 1,
                ),
            ),
            Instruction::SubtractReversed { x, y } => Ok(
                self.with_result_and_flag(
                    x,
                    ((self.register(y) - self.register(x)) % 256) as u8,
                    self.register(y) >= self.register(x),
                ),
            ),
            Instruction::ShiftLeft { x, y } => Ok(
                self.with_result_and_flag(
                    x,
                    ((self.register(x) * 2) % 256) as u8,
                    self.register(x) >= 128,
                ),
            ),
            Instruction::SkipIfRegistersNotEqual { x, y } => Ok(
                self.skip_if(self.register(x) != self.register(y)),
            ),
            Instruction::LoadIndex { address } => Ok(self.with_index(address).advance()),
            Instruction::JumpOffset { address } => Ok(self.at(address + self.register(0))),
            Instruction::Random { x, value } => Ok(self.with_register(x, random & value).advance()),
            Instruction::Draw { x, y, rows } => self.draw(x, y, rows),
            Instruction::SkipIfKeyPressed { x } => Ok(
                self.skip_if(self.key_down(self.register(x))),
            ),
            Instruction::SkipIfKeyNotPressed { x } => Ok(
                self.skip_if(!self.key_down(self.register(x))),
            ),
            Instruction::ReadDelayTimer { x } => Ok(
                self.with_register(x, self.delay_timer).advance(),
            ),
            Instruction::WaitForKey { x } => Ok(MachineState { awaiting_key: Some(x), ..self }),
            Instruction::SetDelayTimer { x } => Ok(
                MachineState { delay_timer: self.register(x), ..self }.advance(),
            ),
            Instruction::SetSoundTimer { x } => Ok(
                MachineState { sound_timer: self.register(x), ..self }.advance(),
            ),
            Instruction::AddToIndex { x } => Ok(
                self.with_index(((self.index_register + self.register(x)) % 0x10000) as u16).advance(),
            ),
            Instruction::LoadGlyphAddress { x } => Ok(
                self.with_index((5 * self.register(x)) as u16).advance(),
            ),
            Instruction::StoreDecimal { x } => self.store_decimal(x),
            Instruction::StoreRegisters { x } => self.store_registers(x),
            Instruction::LoadRegisters { x } => self.load_registers(x),
        }
    }

    /// The instruction at the program counter: the fetched word, decoded. A
    /// word outside the instruction set fails with the word and its address.
    pub open spec fn next_instruction(self) -> Result<Instruction, Chip8Error> {
        match self.fetch() {
            Err(fault) => Err(fault),
            Ok(opcode) => match decode_spec(opcode) {
                None => Err(
                    Chip8Error::UnknownOpcode { opcode, program_counter: self.program_counter },
                ),
                Some(instruction) => Ok(instruction),
            },
        }
    }

    /// One cycle of the machine.
    ///
    /// While a wait-for-key is suspended the cycle does nothing. Otherwise
    /// the instruction at the program counter is fetched, decoded and
    /// executed. `random` is the byte that the random source hands to the
    /// cycle; only `CXNN` looks at it.
    pub open spec fn step(self, random: u8) -> Result<MachineState, Chip8Error> {
        if self.awaiting_key is Some {
            Ok(self)
        } else {
            match self.next_instruction() {
                Err(fault) => Err(fault),
                Ok(instruction) => self.execute(instruction, random),
            }
        }
    }

    /// As many cycles as `randoms` has bytes, one after the other, cycle
    /// `i` receiving byte `i`. The run fails with the first cycle that does.
    pub open spec fn run(self, randoms: Seq<u8>) -> Result<MachineState, Chip8Error>
        decreases randoms.len(),
    {
        if randoms.len() == 0 {
            Ok(self)
        } else {
            match self.run(randoms.drop_last()) {
                Ok(state) => state.step(randoms.last()),
                Err(fault) => Err(fault),
            }
        }
    }

    /// Whether the next cycle consumes a random byte: the machine is not
    /// suspended and the instruction at the program counter is a `CXNN`.
    pub open spec fn draws_random(self) -> bool {
        &&& self.awaiting_key is None
        &&& self.next_instruction() matches Ok(Instruction::Random { .. })
    }

    /// One timer tick: each timer that is above zero goes down by one.
    pub open spec fn tick_timers(self) -> MachineState {
        MachineState {
            delay_timer: if self.delay_timer > 0 {
                (self.delay_timer - 1) as u8
            } else {
                0u8
            },
            sound_timer: if self.sound_timer > 0 {
                (self.sound_timer - 1) as u8
            } else {
                0u8
            },
            ..self
        }
    }

    /// A key event from the host.
    ///
    /// The key's flag takes the value `pressed`. A press that arrives while a
    /// wait-for-key is suspended also completes that instruction: the key's
    /// number goes to the waiting register and execution moves past the
    /// instruction. An index above 15 is refused.
    pub open spec fn set_key_pressed(self, key_index: usize, pressed: bool) -> Result<
        MachineState,
        Chip8Error,
    > {
        if key_index >= 16 {
            Err(Chip8Error::InvalidKeyIndex { key_index })
        } else {
            let keyed = MachineState {
                keypad: self.keypad.update(key_index as int, pressed),
                ..self
            };
            match self.awaiting_key {
                Some(x) if pressed => Ok(
                    MachineState { awaiting_key: None, ..keyed }.with_register(
                        x,
                        key_index as u8,
                    ).advance(),
                ),
                _ => Ok(keyed),
            }
        }
    }
}

/// The result of an operation together with the state it left: the state
/// where the operation succeeded, the failure where it did not.
pub open spec fn outcome(result: Result<(), Chip8Error>, state: MachineState) -> Result<
    MachineState,
    Chip8Error,
> {
    match result {
        Ok(_) => Ok(state),
        Err(fault) => Err(fault),
    }
}

} // verus!
