//! The executable machine.

use vstd::prelude::*;
use crate::arithmetic::{add_with_carry, shift_left, shift_right, subtract_with_borrow};
use crate::display::draw_sprite;
use crate::entropy::random_byte;
use crate::error::Chip8Error;
use crate::instruction::{decode, Instruction};
use crate::state::{
    outcome, MachineState, FONT_DATA, FONT_SIZE, GLYPH_SIZE, KEY_COUNT, MAX_PROGRAM_SIZE, MEMORY_SIZE,
    PROGRAM_START, STACK_DEPTH,
};

verus! {

/// A CHIP-8 machine: memory, registers, call stack, timers, display and
/// keypad, all of fixed size and owned by the value.
///
/// Its state as mathematics is its view, a [`MachineState`].
pub struct Machine {
    memory: [u8; 4096],
    registers: [u8; 16],
    index_register: u16,
    program_counter: u16,
    stack: [u16; 16],
    stack_pointer: usize,
    delay_timer: u8,
    sound_timer: u8,
    display: [bool; 2048],
    keypad: [bool; 16],
    awaiting_key: Option<u8>,
}

impl View for Machine {
    type V = MachineState;

    closed spec fn view(&self) -> MachineState {
        MachineState {
            memory: self.memory@,
            registers: self.registers@,
            index_register: self.index_register,
            program_counter: self.program_counter,
            stack: self.stack@.take(self.stack_pointer as int),
            delay_timer: self.delay_timer,
            sound_timer: self.sound_timer,
            display: self.display@,
            keypad: self.keypad@,
            awaiting_key: self.awaiting_key,
        }
    }
}

impl Machine {
    #[verifier::type_invariant]
    spec fn inv(&self) -> bool {
        &&& self.stack_pointer <= 16
        &&& (self.awaiting_key matches Some(x) ==> x < 16 && self.program_counter <= 0xFFE)
    }

    /// A machine in its reset state.
    pub fn new() -> (machine: Machine)
        ensures
            machine@ == MachineState::initial(),
            machine@.wf(),
    {
        let mut memory = [0u8; 4096];
        let mut address: usize = 0;
        while address < FONT_SIZE
            invariant
                address <= 80,
                forall|a: int|
                    0 <= a < 4096 ==> memory@[a] == if a < address {
                        FONT_DATA@[a]
                    } else {
                        0u8
                    },
            decreases 80 - address,
        {
            memory[address] = FONT_DATA[address];
            address += 1;
        }
        let machine = Machine {
            memory,
            registers: [0u8; 16],
            index_register: 0,
            program_counter: PROGRAM_START,
            stack: [0u16; 16],
            stack_pointer: 0,
            delay_timer: 0,
            sound_timer: 0,
            display: [false; 2048],
            keypad: [false; 16],
            awaiting_key: None,
        };
        assert(machine@ =~= MachineState::initial());
        machine
    }

    /// Resets the machine and copies `program` to address 0x200.
    ///
    /// An image of more than 3584 bytes is refused before anything is
    /// touched; one of exactly 3584 bytes fills memory to its last byte.
    pub fn load(&mut self, program: &[u8]) -> (result: Result<(), Chip8Error>)
        ensures
            outcome(result, final(self)@) == MachineState::load(program@),
            result is Err ==> final(self)@ == old(self)@,
            final(self)@.wf(),
    {
        proof {
            use_type_invariant(&*self);
        }
        let length = program.len();
        if length > MAX_PROGRAM_SIZE {
            return Err(Chip8Error::LoadError { length });
        }
        *self = Machine::new();
        let mut offset: usize = 0;
        while offset < length
            invariant
                offset <= length <= 3584,
                length == program@.len(),
                self@.wf(),
                self@ == (MachineState {
                    memory: Seq::new(
                        4096,
                        |a: int|
                            if 0x200 <= a < 0x200 + offset {
                                program@[a - 0x200]
                            } else {
                                MachineState::initial().memory[a]
                            },
                    ),
                    ..MachineState::initial()
                }),
            decreases length - offset,
        {
            proof {
                use_type_invariant(&*self);
            }
            self.memory[0x200 + offset] = program[offset];
            offset += 1;
            assert(self@ =~= (MachineState {
                memory: Seq::new(
                    4096,
                    |a: int|
                        if 0x200 <= a < 0x200 + offset {
                            program@[a - 0x200]
                        } else {
                            MachineState::initial().memory[a]
                        },
                ),
                ..MachineState::initial()
            }));
        }
        Ok(())
    }

    /// The display, 2048 cells stored row by row, `true` for a lit cell.
    pub fn get_display(&self) -> (display: &[bool; 2048])
        ensures
            display@ == self@.display,
    {
        &self.display
    }

    /// The whole of memory.
    pub fn memory(&self) -> (memory: &[u8; 4096])
        ensures
            memory@ == self@.memory,
    {
        &self.memory
    }

    /// The registers `V0` to `VF`.
    pub fn registers(&self) -> (registers: &[u8; 16])
        ensures
            registers@ == self@.registers,
    {
        &self.registers
    }

    /// The keypad: for each key whether it is held down.
    pub fn keypad(&self) -> (keypad: &[bool; 16])
        ensures
            keypad@ == self@.keypad,
    {
        &self.keypad
    }

    /// The address of the next instruction.
    pub fn program_counter(&self) -> (address: u16)
        ensures
            address == self@.program_counter,
    {
        self.program_counter
    }

    /// The index register `I`.
    pub fn index_register(&self) -> (value: u16)
        ensures
            value == self@.index_register,
    {
        self.index_register
    }

    /// The number of return addresses on the call stack.
    pub fn stack_pointer(&self) -> (depth: usize)
        ensures
            depth == self@.stack.len(),
            depth <= 16,
    {
        proof {
            use_type_invariant(self);
        }
        self.stack_pointer
    }

    /// The delay timer.
    pub fn delay_timer(&self) -> (value: u8)
        ensures
            value == self@.delay_timer,
    {
        self.delay_timer
    }

    /// The sound timer. A host sounds its tone while this is above zero.
    pub fn sound_timer(&self) -> (value: u8)
        ensures
            value == self@.sound_timer,
    {
        self.sound_timer
    }

    /// Whether a wait-for-key instruction is suspended.
    pub fn is_awaiting_key(&self) -> (waiting: bool)
        ensures
            waiting == self@.awaiting_key is Some,
    {
        self.awaiting_key.is_some()
    }

    /// One timer tick: the delay timer and the sound timer each go down by
    /// one unless they are zero already.
    pub fn tick_timers(&mut self)
        ensures
            final(self)@ == old(self)@.tick_timers(),
            final(self)@.wf(),
    {
        proof {
            use_type_invariant(&*self);
        }
        if self.delay_timer > 0 {
            self.delay_timer -= 1;
        }
        if self.sound_timer > 0 {
            self.sound_timer -= 1;
        }
    }

    /// Records that key `key_index` went down (`pressed`) or up.
    ///
    /// A press that arrives while a wait-for-key instruction is suspended
    /// completes it: the key's number goes to the waiting register and
    /// execution moves on to the next instruction. An index above 15 is
    /// refused and changes nothing.
    pub fn set_key_pressed(&mut self, key_index: usize, pressed: bool) -> (result: Result<
        (),
        Chip8Error,
    >)
        ensures
            outcome(result, final(self)@) == old(self)@.set_key_pressed(key_index, pressed),
            result is Err ==> final(self)@ == old(self)@,
            final(self)@.wf(),
    {
        proof {
            use_type_invariant(&*self);
        }
        if key_index >= KEY_COUNT {
            return Err(Chip8Error::InvalidKeyIndex { key_index });
        }
        self.keypad[key_index] = pressed;
        if pressed {
            match self.awaiting_key {
                Some(x) => {
                    self.awaiting_key = None;
                    self.registers[x as usize] = key_index as u8;
                    self.program_counter = self.program_counter + 2;
                },
                None => {},
            }
        }
        assert(Ok::<MachineState, Chip8Error>(self@) =~= old(self)@.set_key_pressed(
            key_index,
            pressed,
        ));
        Ok(())
    }

    /// Runs one cycle, drawing the random byte of a `CXNN` from the `rand`
    /// crate's thread-local generator.
    ///
    /// The cycle is [`MachineState::step`] for the byte that was drawn. For
    /// every instruction but `CXNN` the byte plays no part and the cycle is
    /// fully determined. A failure leaves the machine as it was.
    pub fn execute_cycle(&mut self) -> (result: Result<(), Chip8Error>)
        ensures
            exists|random: u8| outcome(result, final(self)@) == #[trigger] old(self)@.step(random),
            !old(self)@.draws_random() ==> outcome(result, final(self)@) == old(self)@.step(0),
            result is Err ==> final(self)@ == old(self)@ && !old(self)@.draws_random(),
            final(self)@.wf(),
    {
        proof {
            use_type_invariant(&*self);
        }
        if self.awaiting_key.is_some() {
            assert(outcome(Ok(()), self@) == old(self)@.step(0));
            return Ok(());
        }
        match self.next_instruction() {
            Err(fault) => {
                assert(outcome(Err(fault), self@) == old(self)@.step(0));
                Err(fault)
            },
            Ok(instruction) => {
                let random = match instruction {
                    Instruction::Random { .. } => random_byte(),
                    _ => 0,
                };
                assert(instruction is Random ==> old(self)@.execute(instruction, random) is Ok) by {
                    reveal(MachineState::execute);
                }
                let result = self.execute(instruction, random);
                assert(outcome(result, self@) == old(self)@.step(random));
                proof {
                    use_type_invariant(&*self);
                }
                result
            },
        }
    }

    /// Runs one cycle with `random` as the byte that a `CXNN` receives.
    ///
    /// A failure leaves the machine as it was.
    pub fn execute_cycle_with(&mut self, random: u8) -> (result: Result<(), Chip8Error>)
        ensures
            outcome(result, final(self)@) == old(self)@.step(random),
            result is Err ==> final(self)@ == old(self)@,
            final(self)@.wf(),
    {
        proof {
            use_type_invariant(&*self);
        }
        if self.awaiting_key.is_some() {
            return Ok(());
        }
        match self.next_instruction() {
            Err(fault) => Err(fault),
            Ok(instruction) => {
                let result = self.execute(instruction, random);
                proof {
                    use_type_invariant(&*self);
                }
                result
            },
        }
    }

    /// Fetches and decodes the instruction at the program counter.
    fn next_instruction(&self) -> (result: Result<Instruction, Chip8Error>)
        ensures
            result == self@.next_instruction(),
            result matches Ok(instruction) ==> instruction.wf() && self@.program_counter <= 0xFFE,
    {
        let address = self.program_counter as usize;
        if address + 1 >= MEMORY_SIZE {
            return Err(Chip8Error::FetchOutOfBounds { program_counter: self.program_counter });
        }
        let high = self.memory[address];
        let low = self.memory[address + 1];
        let opcode: u16 = ((high as u16) << 8) | (low as u16);
        assert(((high as u16) << 8) | (low as u16) == (high as u16) * 256 + (low as u16))
            by (bit_vector);
        match decode(opcode) {
            None => Err(
                Chip8Error::UnknownOpcode { opcode, program_counter: self.program_counter },
            ),
            Some(instruction) => Ok(instruction),
        }
    }

    fn set_register(&mut self, x: u8, value: u8)
        requires
            x < 16,
        ensures
            final(self)@ == old(self)@.with_register(x, value),
    {
        proof {
            use_type_invariant(&*self);
        }
        self.registers[x as usize] = value;
    }

    fn set_index(&mut self, value: u16)
        ensures
            final(self)@ == old(self)@.with_index(value),
    {
        proof {
            use_type_invariant(&*self);
        }
        self.index_register = value;
    }

    fn jump(&mut self, address: u16)
        requires
            old(self)@.awaiting_key is None,
        ensures
            final(self)@ == old(self)@.at(address as int),
    {
        proof {
            use_type_invariant(&*self);
        }
        self.program_counter = address;
    }

    fn advance(&mut self)
        requires
            old(self)@.awaiting_key is None,
            old(self)@.program_counter <= 0xFFE,
        ensures
            final(self)@ == old(self)@.advance(),
    {
        proof {
            use_type_invariant(&*self);
        }
        self.program_counter = self.program_counter + 2;
    }

    fn skip_if(&mut self, skip: bool)
        requires
            old(self)@.awaiting_key is None,
            old(self)@.program_counter <= 0xFFE,
        ensures
            final(self)@ == old(self)@.skip_if(skip),
    {
        proof {
            use_type_invariant(&*self);
        }
        self.program_counter = self.program_counter + if skip { 4 } else { 2 };
    }

    /// Ends an instruction whose whole effect is a new value of `VX`.
    fn assign(&mut self, x: u8, value: u8)
        requires
            x < 16,
            old(self)@.awaiting_key is None,
            old(self)@.program_counter <= 0xFFE,
        ensures
            final(self)@ == old(self)@.with_register(x, value).advance(),
    {
        self.set_register(x, value);
        self.advance();
    }

    /// Ends an instruction whose whole effect is a new value of `I`.
    fn assign_index(&mut self, value: u16)
        requires
            old(self)@.awaiting_key is None,
            old(self)@.program_counter <= 0xFFE,
        ensures
            final(self)@ == old(self)@.with_index(value).advance(),
    {
        self.set_index(value);
        self.advance();
    }

    fn set_delay_timer(&mut self, value: u8)
        requires
            old(self)@.awaiting_key is None,
            old(self)@.program_counter <= 0xFFE,
        ensures
            final(self)@ == (MachineState { delay_timer: value, ..old(self)@ }).advance(),
    {
        proof {
            use_type_invariant(&*self);
        }
        self.delay_timer = value;
        self.advance();
    }

    fn set_sound_timer(&mut self, value: u8)
        requires
            old(self)@.awaiting_key is None,
            old(self)@.program_counter <= 0xFFE,
        ensures
            final(self)@ == (MachineState { sound_timer: value, ..old(self)@ }).advance(),
    {
        proof {
            use_type_invariant(&*self);
        }
        self.sound_timer = value;
        self.advance();
    }

    /// Suspends the machine at a wait-for-key instruction.
    fn wait_for_key(&mut self, x: u8)
        requires
            x < 16,
            old(self)@.awaiting_key is None,
            old(self)@.program_counter <= 0xFFE,
        ensures
            final(self)@ == (MachineState { awaiting_key: Some(x), ..old(self)@ }),
    {
        proof {
            use_type_invariant(&*self);
        }
        self.awaiting_key = Some(x);
    }

    /// Ends a flag-setting instruction: `VX` first, `VF` last.
    fn finish_with_flag(&mut self, x: u8, value: u8, flag: bool)
        requires
            x < 16,
            old(self)@.awaiting_key is None,
            old(self)@.program_counter <= 0xFFE,
        ensures
            final(self)@ == old(self)@.with_result_and_flag(x, value, flag),
    {
        self.set_register(x, value);
        self.set_register(0xF, if flag { 1 } else { 0 });
        self.advance();
    }

    fn key_down(&self, key: u8) -> (down: bool)
        ensures
            down == self@.key_down(key),
    {
        key < 16 && self.keypad[key as usize]
    }

    fn memory_fault(&self) -> (fault: Chip8Error)
        ensures
            fault == self@.memory_fault(),
    {
        Chip8Error::MemoryOutOfBounds {
            address: self.index_register,
            program_counter: self.program_counter,
        }
    }

    fn leaves_memory(&self, count: usize) -> (leaves: bool)
        requires
            count <= 16,
        ensures
            leaves == self@.leaves_memory(count as int),
    {
        count > 0 && self.index_register as usize + count > MEMORY_SIZE
    }

    fn call(&mut self, address: u16) -> (result: Result<(), Chip8Error>)
        requires
            old(self)@.awaiting_key is None,
            old(self)@.program_counter <= 0xFFE,
        ensures
            outcome(result, final(self)@) == old(self)@.call(address),
            result is Err ==> final(self)@ == old(self)@,
    {
        proof {
            use_type_invariant(&*self);
        }
        if self.stack_pointer >= STACK_DEPTH {
            return Err(Chip8Error::StackOverflow { program_counter: self.program_counter });
        }
        self.stack[self.stack_pointer] = self.program_counter + 2;
        self.stack_pointer += 1;
        self.program_counter = address;
        assert(self@.stack =~= old(self)@.stack.push((old(self)@.program_counter + 2) as u16));
        Ok(())
    }

    fn ret(&mut self) -> (result: Result<(), Chip8Error>)
        requires
            old(self)@.awaiting_key is None,
        ensures
            outcome(result, final(self)@) == old(self)@.ret(),
            result is Err ==> final(self)@ == old(self)@,
    {
        proof {
            use_type_invariant(&*self);
        }
        if self.stack_pointer == 0 {
            return Err(Chip8Error::StackUnderflow { program_counter: self.program_counter });
        }
        self.stack_pointer -= 1;
        self.program_counter = self.stack[self.stack_pointer];
        assert(self@.stack =~= old(self)@.stack.drop_last());
        Ok(())
    }

    fn clear_screen(&mut self)
        requires
            old(self)@.awaiting_key is None,
            old(self)@.program_counter <= 0xFFE,
        ensures
            final(self)@ == (MachineState {
                display: Seq::new(2048, |i: int| false),
                ..old(self)@
            }).advance(),
    {
        proof {
            use_type_invariant(&*self);
        }
        self.display = [false; 2048];
        assert(self@.display =~= Seq::new(2048, |i: int| false));
        self.advance();
    }

    fn draw(&mut self, x: u8, y: u8, rows: u8) -> (result: Result<(), Chip8Error>)
        requires
            x < 16,
            y < 16,
            rows < 16,
            old(self)@.awaiting_key is None,
            old(self)@.program_counter <= 0xFFE,
        ensures
            outcome(result, final(self)@) == old(self)@.draw(x, y, rows),
            result is Err ==> final(self)@ == old(self)@,
    {
        proof {
            use_type_invariant(&*self);
        }
        if self.leaves_memory(rows as usize) {
            return Err(self.memory_fault());
        }
        let start: usize = if rows == 0 {
            0
        } else {
            self.index_register as usize
        };
        let left = self.registers[x as usize];
        let top = self.registers[y as usize];
        assert(rows == 0 ==> self.memory@.subrange(0, 0) =~= Seq::<u8>::empty());
        let collision = draw_sprite(&mut self.display, &self.memory, start, rows as usize, left, top);
        self.set_register(0xF, if collision { 1 } else { 0 });
        self.advance();
        Ok(())
    }

    fn store_decimal(&mut self, x: u8) -> (result: Result<(), Chip8Error>)
        requires
            x < 16,
            old(self)@.awaiting_key is None,
            old(self)@.program_counter <= 0xFFE,
        ensures
            outcome(result, final(self)@) == old(self)@.store_decimal(x),
            result is Err ==> final(self)@ == old(self)@,
    {
        proof {
            use_type_invariant(&*self);
        }
        if self.leaves_memory(3) {
            return Err(self.memory_fault());
        }
        let start = self.index_register as usize;
        let value = self.registers[x as usize];
        self.memory[start] = value / 100;
        self.memory[start + 1] = value / 10 % 10;
        self.memory[start + 2] = value % 10;
        self.advance();
        Ok(())
    }

    fn store_registers(&mut self, x: u8) -> (result: Result<(), Chip8Error>)
        requires
            x < 16,
            old(self)@.awaiting_key is None,
            old(self)@.program_counter <= 0xFFE,
        ensures
            outcome(result, final(self)@) == old(self)@.store_registers(x),
            result is Err ==> final(self)@ == old(self)@,
    {
        proof {
            use_type_invariant(&*self);
        }
        let count = x as usize + 1;
        if self.leaves_memory(count) {
            return Err(self.memory_fault());
        }
        let start = self.index_register as usize;
        let ghost before = self@;
        let mut i: usize = 0;
        while i < count
            invariant
                i <= count <= 16,
                start + count <= 4096,
                start == before.index_register,
                before.memory.len() == 4096,
                self@ == (MachineState {
                    memory: Seq::new(
                        4096,
                        |a: int|
                            if start <= a < start + i {
                                before.registers[a - start]
                            } else {
                                before.memory[a]
                            },
                    ),
                    ..before
                }),
            decreases count - i,
        {
            proof {
                use_type_invariant(&*self);
            }
            self.memory[start + i] = self.registers[i];
            i += 1;
            assert(self@ =~= (MachineState {
                memory: Seq::new(
                    4096,
                    |a: int|
                        if start <= a < start + i {
                            before.registers[a - start]
                        } else {
                            before.memory[a]
                        },
                ),
                ..before
            }));
        }
        self.advance();
        assert(self@ =~= before.store_registers(x)->Ok_0);
        Ok(())
    }

    fn load_registers(&mut self, x: u8) -> (result: Result<(), Chip8Error>)
        requires
            x < 16,
            old(self)@.awaiting_key is None,
            old(self)@.program_counter <= 0xFFE,
        ensures
            outcome(result, final(self)@) == old(self)@.load_registers(x),
            result is Err ==> final(self)@ == old(self)@,
    {
        proof {
            use_type_invariant(&*self);
        }
        let count = x as usize + 1;
        if self.leaves_memory(count) {
            return Err(self.memory_fault());
        }
        let start = self.index_register as usize;
        let ghost before = self@;
        let mut i: usize = 0;
        while i < count
            invariant
                i <= count <= 16,
                start + count <= 4096,
                start == before.index_register,
                before.registers.len() == 16,
                self@ == (MachineState {
                    registers: Seq::new(
                        16,
                        |k: int| if k < i { before.memory[start + k] } else { before.registers[k] },
                    ),
                    ..before
                }),
            decreases count - i,
        {
            proof {
                use_type_invariant(&*self);
            }
            self.registers[i] = self.memory[start + i];
            i += 1;
            assert(self@ =~= (MachineState {
                registers: Seq::new(
                    16,
                    |k: int| if k < i { before.memory[start + k] } else { before.registers[k] },
                ),
                ..before
            }));
        }
        self.advance();
        assert(self@ =~= before.load_registers(x)->Ok_0);
        Ok(())
    }

    /// Executes a decoded instruction.
    fn execute(&mut self, instruction: Instruction, random: u8) -> (result: Result<
        (),
        Chip8Error,
    >)
        requires
            instruction.wf(),
            old(self)@.awaiting_key is None,
            old(self)@.program_counter <= 0xFFE,
        ensures
            outcome(result, final(self)@) == old(self)@.execute(instruction, random),
            result is Err ==> final(self)@ == old(self)@,
    {
        reveal(MachineState::execute);
        match instruction {
            Instruction::ClearScreen => {
                self.clear_screen();
                return Ok(());
            },
            Instruction::Return => {
                return self.ret();
            },
            Instruction::Jump { address } => {
                self.jump(address);
                return Ok(());
            },
            Instruction::Call { address } => {
                return self.call(address);
            },
            Instruction::SkipIfEqual { x, value } => {
                let skip = self.registers[x as usize] == value;
                self.skip_if(skip);
                return Ok(());
            },
            Instruction::SkipIfNotEqual { x, value } => {
                let skip = self.registers[x as usize] != value;
                self.skip_if(skip);
                return Ok(());
            },
            Instruction::SkipIfRegistersEqual { x, y } => {
                let skip = self.registers[x as usize] == self.registers[y as usize];
                self.skip_if(skip);
                return Ok(());
            },
            Instruction::LoadImmediate { x, value } => {
                self.assign(x, value);
                return Ok(());
            },
            Instruction::AddImmediate { x, value } => {
                let (sum, _) = add_with_carry(self.registers[x as usize], value);
                self.assign(x, sum);
                return Ok(());
            },
            Instruction::Move { x, y } => {
                let value = self.registers[y as usize];
                self.assign(x, value);
                return Ok(());
            },
            Instruction::Or { x, y } => {
                let value = self.registers[x as usize] | self.registers[y as usize];
                self.assign(x, value);
                return Ok(());
            },
            Instruction::And { x, y } => {
                let value = self.registers[x as usize] & self.registers[y as usize];
                self.assign(x, value);
                return Ok(());
            },
            Instruction::Xor { x, y } => {
                let value = self.registers[x as usize] ^ self.registers[y as usize];
                self.assign(x, value);
                return Ok(());
            },
            Instruction::Add { x, y } => {
                let vx = self.registers[x as usize];
                let vy = self.registers[y as usize];
                let (sum, carry) = add_with_carry(vx, vy);
                self.finish_with_flag(x, sum, carry);
                return Ok(());
            },
            Instruction::Subtract { x, y } => {
                let vx = self.registers[x as usize];
                let vy = self.registers[y as usize];
                let (difference, no_borrow) = subtract_with_borrow(vx, vy);
                self.finish_with_flag(x, difference, no_borrow);
                return Ok(());
            },
            Instruction::ShiftRight { x, y: _ } => {
                let vx = self.registers[x as usize];
                let (shifted, bit) = shift_right(vx);
                self.finish_with_flag(x, shifted, bit);
                return Ok(());
            },
            Instruction::SubtractReversed { x, y } => {
                let vx = self.registers[x as usize];
                let vy = self.registers[y as usize];
                let (difference, no_borrow) = subtract_with_borrow(vy, vx);
                self.finish_with_flag(x, difference, no_borrow);
                return Ok(());
            },
            Instruction::ShiftLeft { x, y: _ } => {
                let vx = self.registers[x as usize];
                let (shifted, bit) = shift_left(vx);
                self.finish_with_flag(x, shifted, bit);
                return Ok(());
            },
            Instruction::SkipIfRegistersNotEqual { x, y } => {
                let skip = self.registers[x as usize] != self.registers[y as usize];
                self.skip_if(skip);
                return Ok(());
            },
            Instruction::LoadIndex { address } => {
                self.assign_index(address);
                return Ok(());
            },
            Instruction::JumpOffset { address } => {
                let target = address + self.registers[0] as u16;
                self.jump(target);
                return Ok(());
            },
            Instruction::Random { x, value } => {
                self.assign(x, random & value);
                return Ok(());
            },
            Instruction::Draw { x, y, rows } => {
                return self.draw(x, y, rows);
            },
            Instruction::SkipIfKeyPressed { x } => {
                let skip = self.key_down(self.registers[x as usize]);
                self.skip_if(skip);
                return Ok(());
            },
            Instruction::SkipIfKeyNotPressed { x } => {
                let skip = !self.key_down(self.registers[x as usize]);
                self.skip_if(skip);
                return Ok(());
            },
            Instruction::ReadDelayTimer { x } => {
                let value = self.delay_timer;
                self.assign(x, value);
                return Ok(());
            },
            Instruction::WaitForKey { x } => {
                self.wait_for_key(x);
                return Ok(());
            },
            Instruction::SetDelayTimer { x } => {
                let value = self.registers[x as usize];
                self.set_delay_timer(value);
                return Ok(());
            },
            Instruction::SetSoundTimer { x } => {
                let value = self.registers[x as usize];
                self.set_sound_timer(value);
                return Ok(());
            },
            Instruction::AddToIndex { x } => {
                let value = self.index_register.wrapping_add(self.registers[x as usize] as u16);
                self.assign_index(value);
                return Ok(());
            },
            Instruction::LoadGlyphAddress { x } => {
                let value = GLYPH_SIZE * self.registers[x as usize] as u16;
                self.assign_index(value);
                return Ok(());
            },
            Instruction::StoreDecimal { x } => {
                return self.store_decimal(x);
            },
            Instruction::StoreRegisters { x } => {
                return self.store_registers(x);
            },
            Instruction::LoadRegisters { x } => {
                return self.load_registers(x);
            },
        }
    }
}

} // verus!
