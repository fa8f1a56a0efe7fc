//! Laws of the machine: what holds of every state and every program, proved
//! from the definitions in [`crate::state`].

use vstd::prelude::*;
use crate::display::{collides, draw_spec, sprite_covers};
use crate::error::Chip8Error;
use crate::host::{is_key_of, key2btn_spec, lemma_key_codes_distinct, lit_cells, KEY_CODES};
use crate::instruction::{decode_spec, lemma_decode_wf, Instruction};
use crate::state::{MachineState, FONT_DATA};

verus! {

/// Loading a program of at most 3584 bytes succeeds and puts the image at
/// address 0x200, byte for byte. The 512 bytes below it are those of the
/// reset state, which begin with the font; the bytes above it are zero.
pub proof fn load_places_image(program: Seq<u8>)
    requires
        program.len() <= 3584,
    ensures
        MachineState::load(program) == Ok::<MachineState, Chip8Error>(
            MachineState::loaded(program),
        ),
        MachineState::loaded(program).memory.len() == 4096,
        MachineState::loaded(program).memory.subrange(0x200, 0x200 + program.len() as int) == program,
        MachineState::loaded(program).memory.subrange(0, 0x200)
            == MachineState::initial().memory.subrange(0, 0x200),
        MachineState::loaded(program).memory.subrange(0, 80) == FONT_DATA@,
        forall|address: int|
            0x200 + program.len() <= address < 4096 ==> MachineState::loaded(
                program,
            ).memory[address] == 0,
{
    let memory = MachineState::loaded(program).memory;
    assert(memory.subrange(0x200, 0x200 + program.len() as int) =~= program);
    assert(memory.subrange(0, 0x200) =~= MachineState::initial().memory.subrange(0, 0x200));
    assert(memory.subrange(0, 80) =~= FONT_DATA@);
}

/// A program of more than 3584 bytes is refused, with its length.
pub proof fn load_refuses_long_image(program: Seq<u8>)
    requires
        program.len() > 3584,
        program.len() <= usize::MAX,
    ensures
        MachineState::load(program) == Err::<MachineState, Chip8Error>(
            Chip8Error::LoadError { length: program.len() as usize },
        ),
{
}

/// After a load the machine is reset: execution starts at 0x200, the stack
/// is empty, index register, registers and timers are zero, no cell of the
/// display is lit, no key is down and no wait is pending.
pub proof fn load_resets_machine(program: Seq<u8>)
    ensures
        MachineState::loaded(program).wf(),
        MachineState::loaded(program).program_counter == 0x200,
        MachineState::loaded(program).stack.len() == 0,
        MachineState::loaded(program).index_register == 0,
        MachineState::loaded(program).delay_timer == 0,
        MachineState::loaded(program).sound_timer == 0,
        MachineState::loaded(program).awaiting_key is None,
        forall|x: int| 0 <= x < 16 ==> MachineState::loaded(program).registers[x] == 0,
        forall|cell: int| 0 <= cell < 2048 ==> !MachineState::loaded(program).display[cell],
        forall|key: int| 0 <= key < 16 ==> !MachineState::loaded(program).keypad[key],
{
}

/// A well-formed machine stays well formed through a cycle.
pub proof fn step_preserves_wf(state: MachineState, random: u8)
    requires
        state.wf(),
    ensures
        state.step(random) matches Ok(next) ==> next.wf(),
{
    reveal(MachineState::execute);
    if state.awaiting_key is None && state.fetch() is Ok {
        lemma_decode_wf(state.fetch()->Ok_0);
    }
}

/// A well-formed machine stays well formed through any number of cycles.
pub proof fn run_preserves_wf(state: MachineState, randoms: Seq<u8>)
    requires
        state.wf(),
    ensures
        state.run(randoms) matches Ok(next) ==> next.wf(),
    decreases randoms.len(),
{
    if randoms.len() > 0 {
        run_preserves_wf(state, randoms.drop_last());
        if state.run(randoms.drop_last()) is Ok {
            step_preserves_wf(state.run(randoms.drop_last())->Ok_0, randoms.last());
        }
    }
}

/// A timer tick and a key event keep a well-formed machine well formed.
pub proof fn events_preserve_wf(state: MachineState, key_index: usize, pressed: bool)
    requires
        state.wf(),
    ensures
        state.tick_timers().wf(),
        state.set_key_pressed(key_index, pressed) matches Ok(next) ==> next.wf(),
{
}

/// The random byte matters to no cycle but that of a `CXNN`, and a `CXNN`
/// never fails.
pub proof fn random_matters_only_to_random(state: MachineState, first: u8, second: u8)
    ensures
        !state.draws_random() ==> state.step(first) == state.step(second),
        state.draws_random() ==> state.step(first) is Ok,
{
    reveal(MachineState::execute);
}

/// `7XNN` adds modulo 256 and touches no other register: `VF` keeps its
/// value unless it is the destination.
pub proof fn add_immediate_wraps_without_flag(state: MachineState, x: u8, value: u8, random: u8)
    requires
        state.wf(),
        x < 16,
    ensures
        state.execute(Instruction::AddImmediate { x, value }, random) matches Ok(next)
            && next.register(x) == (state.register(x) + value) % 256 && forall|other: int|
            0 <= other < 16 && other != x ==> next.registers[other] == state.registers[other],
{
    reveal(MachineState::execute);
}

/// `8XY4` leaves the sum modulo 256 in `VX` and the carry in `VF`; where `X`
/// is `F` the carry is what remains.
pub proof fn add_sets_carry(state: MachineState, x: u8, y: u8, random: u8)
    requires
        state.wf(),
        x < 16,
        y < 16,
    ensures
        state.execute(Instruction::Add { x, y }, random) matches Ok(next) && next.register(0xF)
            == (if state.register(x) + state.register(y) > 255 {
            1u8
        } else {
            0u8
        }) && (x != 0xF ==> next.register(x) == (state.register(x) + state.register(y)) % 256),
{
    reveal(MachineState::execute);
}

/// After `00E0` no cell of the display is lit.
pub proof fn clear_screen_blanks_display(state: MachineState, random: u8)
    ensures
        state.execute(Instruction::ClearScreen, random) matches Ok(next) && next.display.len()
            == 2048 && forall|cell: int| 0 <= cell < 2048 ==> !next.display[cell],
{
    reveal(MachineState::execute);
}

/// Drawing a sprite twice at the same place gives the display back.
pub proof fn draw_twice_restores_display(display: Seq<bool>, sprite: Seq<u8>, left: u8, top: u8)
    requires
        display.len() == 2048,
    ensures
        draw_spec(draw_spec(display, sprite, left, top), sprite, left, top) == display,
{
    assert(draw_spec(draw_spec(display, sprite, left, top), sprite, left, top) =~= display);
}

/// A draw collides exactly where the sprite has a set pixel over a lit cell.
/// So a draw onto a blank display never collides, and the second of two
/// equal draws onto a blank display collides as soon as the sprite has a set
/// pixel at all.
pub proof fn second_draw_collides(display: Seq<bool>, sprite: Seq<u8>, left: u8, top: u8)
    requires
        display.len() == 2048,
        forall|cell: int| 0 <= cell < 2048 ==> !display[cell],
    ensures
        !collides(display, sprite, left, top),
        collides(draw_spec(display, sprite, left, top), sprite, left, top) <==> exists|cell: int|
            0 <= cell < 2048 && #[trigger] sprite_covers(sprite, left, top, cell),
{
    let drawn = draw_spec(display, sprite, left, top);
    if collides(drawn, sprite, left, top) {
        let cell = choose|cell: int|
            0 <= cell < 2048 && drawn[cell] && #[trigger] sprite_covers(sprite, left, top, cell);
        assert(sprite_covers(sprite, left, top, cell));
    }
    if exists|cell: int| 0 <= cell < 2048 && #[trigger] sprite_covers(sprite, left, top, cell) {
        let cell = choose|cell: int|
            0 <= cell < 2048 && #[trigger] sprite_covers(sprite, left, top, cell);
        assert(drawn[cell] && sprite_covers(sprite, left, top, cell));
    }
}

/// A call followed at once by a return continues at the instruction after
/// the call, with the stack as it was: the pair does what stepping over the
/// call would do.
pub proof fn call_then_return(state: MachineState, address: u16, random: u8)
    requires
        state.wf(),
        state.stack.len() < 16,
        state.program_counter <= 0xFFE,
    ensures
        state.execute(Instruction::Call { address }, random) matches Ok(called)
            && called.program_counter == address && called.execute(Instruction::Return, random)
            == Ok::<MachineState, Chip8Error>(state.advance()),
{
    reveal(MachineState::execute);
    let called = state.call(address)->Ok_0;
    assert(called.stack.drop_last() =~= state.stack);
}

/// A call fails exactly when sixteen return addresses are on the stack, and
/// otherwise makes the stack one deeper; a return fails exactly when the
/// stack is empty. Seventeen calls in a row from an empty stack therefore
/// fail at the seventeenth.
pub proof fn stack_limits(state: MachineState, address: u16)
    requires
        state.wf(),
    ensures
        state.stack.len() == 16 ==> state.call(address) == Err::<MachineState, Chip8Error>(
            Chip8Error::StackOverflow { program_counter: state.program_counter },
        ),
        state.stack.len() < 16 ==> (state.call(address) matches Ok(called) && called.stack.len()
            == state.stack.len() + 1),
        state.stack.len() == 0 ==> state.ret() == Err::<MachineState, Chip8Error>(
            Chip8Error::StackUnderflow { program_counter: state.program_counter },
        ),
        state.stack.len() > 0 ==> (state.ret() matches Ok(returned) && returned.stack.len()
            == state.stack.len() - 1),
{
}

/// The state after calling each of `addresses` in turn, with no return in
/// between; the failure of the first call that fails.
pub open spec fn calls_in_a_row(state: MachineState, addresses: Seq<u16>) -> Result<
    MachineState,
    Chip8Error,
>
    decreases addresses.len(),
{
    if addresses.len() == 0 {
        Ok(state)
    } else {
        match calls_in_a_row(state, addresses.drop_last()) {
            Ok(called) => called.call(addresses.last()),
            Err(fault) => Err(fault),
        }
    }
}

/// Calls in a row succeed as long as the stack has room, each making it one
/// deeper, and overflow the stack as soon as it has none: from an empty
/// stack sixteen calls succeed and the seventeenth fails.
pub proof fn calls_in_a_row_fill_the_stack(state: MachineState, addresses: Seq<u16>)
    requires
        state.stack.len() <= 16,
    ensures
        state.stack.len() + addresses.len() <= 16 ==> (calls_in_a_row(state, addresses) matches Ok(
            called,
        ) && called.stack.len() == state.stack.len() + addresses.len()),
        state.stack.len() + addresses.len() > 16 ==> (calls_in_a_row(state, addresses) matches Err(
            fault,
        ) && fault is StackOverflow),
    decreases addresses.len(),
{
    if addresses.len() > 0 {
        calls_in_a_row_fill_the_stack(state, addresses.drop_last());
    }
}

/// `FX0A` suspends the machine where it stands: the program counter stays
/// on the instruction and the wait is recorded with its destination.
pub proof fn wait_for_key_suspends(state: MachineState, x: u8, random: u8)
    ensures
        state.execute(Instruction::WaitForKey { x }, random) == Ok::<MachineState, Chip8Error>(
            MachineState { awaiting_key: Some(x), ..state },
        ),
{
    reveal(MachineState::execute);
}

/// While a wait is pending, cycles change nothing, however many are run.
pub proof fn waiting_machine_stands_still(state: MachineState, randoms: Seq<u8>)
    requires
        state.awaiting_key is Some,
    ensures
        state.run(randoms) == Ok::<MachineState, Chip8Error>(state),
    decreases randoms.len(),
{
    if randoms.len() > 0 {
        waiting_machine_stands_still(state, randoms.drop_last());
    }
}

/// A key press that arrives while a wait is pending ends the wait: the key
/// is down, its number is in the waiting register, and execution stands at
/// the instruction after the wait. A release leaves the wait pending.
pub proof fn key_press_completes_wait(state: MachineState, key_index: usize)
    requires
        state.wf(),
        state.awaiting_key is Some,
        key_index < 16,
    ensures
        state.set_key_pressed(key_index, true) matches Ok(next) && next.awaiting_key is None
            && next.register(state.awaiting_key->Some_0) == key_index && next.program_counter
            == state.program_counter + 2 && next.keypad[key_index as int],
        state.set_key_pressed(key_index, false) matches Ok(next) && next.awaiting_key
            == state.awaiting_key && next.program_counter == state.program_counter
            && next.registers == state.registers,
{
}

/// The whole of a wait: from the cycle that reaches an `FX0A` on, cycles
/// leave the machine suspended at that instruction with everything else
/// untouched, however many are run; the first key press then puts the key's
/// number in `VX` and moves execution to the next instruction.
pub proof fn wait_lasts_until_a_key_press(
    state: MachineState,
    x: u8,
    randoms: Seq<u8>,
    key_index: usize,
)
    requires
        state.wf(),
        state.awaiting_key is None,
        state.next_instruction() == Ok::<Instruction, Chip8Error>(Instruction::WaitForKey { x }),
        randoms.len() > 0,
        key_index < 16,
    ensures
        state.run(randoms) == Ok::<MachineState, Chip8Error>(
            MachineState { awaiting_key: Some(x), ..state },
        ),
        (MachineState { awaiting_key: Some(x), ..state }).set_key_pressed(key_index, true)
            matches Ok(resumed) && resumed.awaiting_key is None && resumed.register(x)
            == key_index && resumed.program_counter == state.program_counter + 2,
    decreases randoms.len(),
{
    reveal(MachineState::execute);
    let waiting = MachineState { awaiting_key: Some(x), ..state };
    lemma_decode_wf(state.fetch()->Ok_0);
    if randoms.len() == 1 {
        assert(randoms.drop_last().len() == 0);
        assert(state.run(randoms.drop_last()) == Ok::<MachineState, Chip8Error>(state));
    } else {
        wait_lasts_until_a_key_press(state, x, randoms.drop_last(), key_index);
    }
}

/// Outside a wait a key event changes the key's flag and nothing else.
pub proof fn key_event_sets_flag(state: MachineState, key_index: usize, pressed: bool)
    requires
        state.wf(),
        state.awaiting_key is None,
        key_index < 16,
    ensures
        state.set_key_pressed(key_index, pressed) == Ok::<MachineState, Chip8Error>(
            MachineState { keypad: state.keypad.update(key_index as int, pressed), ..state },
        ),
{
}

/// Telling the machine twice that a key is down, or up, is the same as
/// telling it once.
pub proof fn set_key_pressed_is_idempotent(state: MachineState, key_index: usize, pressed: bool)
    requires
        state.wf(),
    ensures
        state.set_key_pressed(key_index, pressed) matches Ok(next) ==> next.set_key_pressed(
            key_index,
            pressed,
        ) == Ok::<MachineState, Chip8Error>(next),
{
    if state.set_key_pressed(key_index, pressed) is Ok {
        let next = state.set_key_pressed(key_index, pressed)->Ok_0;
        let again = next.set_key_pressed(key_index, pressed)->Ok_0;
        assert(again.keypad =~= next.keypad);
    }
}

/// A key index of 16 or more is refused.
pub proof fn key_index_out_of_range(state: MachineState, key_index: usize, pressed: bool)
    requires
        key_index >= 16,
    ensures
        state.set_key_pressed(key_index, pressed) == Err::<MachineState, Chip8Error>(
            Chip8Error::InvalidKeyIndex { key_index },
        ),
{
}

/// A timer at zero stays at zero; a timer above zero goes down by exactly
/// one. The two timers do not affect each other, and nothing else changes.
pub proof fn timers_count_down_to_zero(state: MachineState)
    ensures
        state.delay_timer == 0 ==> state.tick_timers().delay_timer == 0,
        state.sound_timer == 0 ==> state.tick_timers().sound_timer == 0,
        state.delay_timer > 0 ==> state.tick_timers().delay_timer == state.delay_timer - 1,
        state.sound_timer > 0 ==> state.tick_timers().sound_timer == state.sound_timer - 1,
        state.tick_timers() == (MachineState {
            delay_timer: state.tick_timers().delay_timer,
            sound_timer: state.tick_timers().sound_timer,
            ..state
        }),
{
}

/// A word outside the instruction set stops the machine with the word and
/// the address it was fetched from.
pub proof fn unknown_opcode_is_reported(state: MachineState, random: u8)
    requires
        state.awaiting_key is None,
        state.fetch() is Ok,
        decode_spec(state.fetch()->Ok_0) is None,
    ensures
        state.step(random) == Err::<MachineState, Chip8Error>(
            Chip8Error::UnknownOpcode {
                opcode: state.fetch()->Ok_0,
                program_counter: state.program_counter,
            },
        ),
{
}

/// Every keypad key has a keyboard key, and that key stands for no other.
pub proof fn every_keypad_key_has_a_key(button: int)
    requires
        0 <= button < 16,
    ensures
        key2btn_spec(KEY_CODES@[button]) == Some(button as usize),
{
    let keycode = KEY_CODES@[button];
    assert(is_key_of(keycode, button));
    let chosen = choose|candidate: int| is_key_of(keycode, candidate);
    lemma_key_codes_distinct(chosen, button);
}

/// The lit cells of a display are listed without gaps, once each and in
/// rising order.
pub proof fn lit_cells_are_the_lit_cells(display: Seq<bool>)
    ensures
        forall|i: int|
            0 <= i < lit_cells(display).len() ==> 0 <= #[trigger] lit_cells(display)[i]
                < display.len() && display[lit_cells(display)[i]],
        forall|i: int, j: int|
            0 <= i < j < lit_cells(display).len() ==> lit_cells(display)[i] < lit_cells(
                display,
            )[j],
        forall|cell: int|
            0 <= cell < display.len() && display[cell] ==> lit_cells(display).contains(cell),
    decreases display.len(),
{
    if display.len() > 0 {
        let shorter = display.drop_last();
        lit_cells_are_the_lit_cells(shorter);
        assert forall|cell: int| 0 <= cell < display.len() && display[cell] implies lit_cells(
            display,
        ).contains(cell) by {
            if cell < shorter.len() {
                assert(shorter[cell]);
                let i = choose|i: int|
                    0 <= i < lit_cells(shorter).len() && lit_cells(shorter)[i] == cell;
                assert(lit_cells(display)[i] == cell);
            } else {
                assert(lit_cells(display)[lit_cells(display).len() - 1] == cell);
            }
        }
    }
}

} // verus!
