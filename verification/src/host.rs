//! What a host program has to decide around the machine: which keypad key a
//! key code stands for, what an input event does, which rectangles to paint
//! for a frame, and how many cycles and timer ticks make a frame.
//!
//! Nothing here opens a window or reads a keyboard; a host hands in plain
//! values and gets plain values back.

use vstd::prelude::*;
use crate::error::Chip8Error;
use crate::machine::Machine;
use crate::state::{outcome, MachineState};

verus! {

/// Side of the square, in window pixels, that one display cell is painted as.
pub const SCALE: u32 = 15;

/// Width of the window: 64 cells of [`SCALE`] pixels.
pub const WINDOW_WIDTH: u32 = 960;

/// Height of the window: 32 cells of [`SCALE`] pixels.
pub const WINDOW_HEIGHT: u32 = 480;

/// Machine cycles per frame.
pub const TICKS_PER_FRAME: usize = 10;

/// Key code of the Escape key, which ends the program.
pub const ESCAPE_KEY: i32 = 27;

/// For each keypad key, 0 to F, the code of the keyboard key that stands for
/// it. A key code is the code point of the character on the key. The block
/// `1234 / QWER / ASDF / ZXCV` of a keyboard is laid over the keypad's
/// `123C / 456D / 789E / A0BF`.
pub const KEY_CODES: [i32; 16] = [
    0x78,  // 0: X
    0x31,  // 1: 1
    0x32,  // 2: 2
    0x33,  // 3: 3
    0x71,  // 4: Q
    0x77,  // 5: W
    0x65,  // 6: E
    0x61,  // 7: A
    0x73,  // 8: S
    0x64,  // 9: D
    0x7A,  // A: Z
    0x63,  // B: C
    0x34,  // C: 4
    0x72,  // D: R
    0x66,  // E: F
    0x76,  // F: V
];

/// Whether `keycode` is the keyboard key that stands for keypad key `button`.
pub open spec fn is_key_of(keycode: i32, button: int) -> bool {
    0 <= button < 16 && KEY_CODES@[button] == keycode
}

/// The keypad key that a key code stands for, if any.
pub open spec fn key2btn_spec(keycode: i32) -> Option<usize> {
    if exists|button: int| is_key_of(keycode, button) {
        Some((choose|button: int| is_key_of(keycode, button)) as usize)
    } else {
        None
    }
}

/// No two keypad keys share a keyboard key.
pub proof fn lemma_key_codes_distinct(first: int, second: int)
    requires
        0 <= first < 16,
        0 <= second < 16,
        KEY_CODES@[first] == KEY_CODES@[second],
    ensures
        first == second,
{
    let codes = KEY_CODES@;
    assert(codes[0] == 0x78 && codes[1] == 0x31 && codes[2] == 0x32 && codes[3] == 0x33);
    assert(codes[4] == 0x71 && codes[5] == 0x77 && codes[6] == 0x65 && codes[7] == 0x61);
    assert(codes[8] == 0x73 && codes[9] == 0x64 && codes[10] == 0x7A && codes[11] == 0x63);
    assert(codes[12] == 0x34 && codes[13] == 0x72 && codes[14] == 0x66 && codes[15] == 0x76);
}

/// Maps a key code to the keypad key it stands for.
pub fn key2btn(keycode: i32) -> (button: Option<usize>)
    ensures
        button == key2btn_spec(keycode),
        button matches Some(k) ==> is_key_of(keycode, k as int),
        button is None ==> forall|k: int| !is_key_of(keycode, k),
{
    let mut candidate: usize = 0;
    while candidate < 16
        invariant
            candidate <= 16,
            forall|k: int| 0 <= k < candidate ==> !is_key_of(keycode, k),
        decreases 16 - candidate,
    {
        if KEY_CODES[candidate] == keycode {
            proof {
                assert(is_key_of(keycode, candidate as int));
                let chosen = choose|button: int| is_key_of(keycode, button);
                lemma_key_codes_distinct(chosen, candidate as int);
            }
            return Some(candidate);
        }
        candidate += 1;
    }
    None
}

/// An input event, as far as the machine's host cares about it.
#[derive(Clone, Copy, Debug, PartialEq, Eq, Structural)]
pub enum HostEvent {
    /// The window was closed.
    Quit,
    /// The key with this code went down.
    KeyDown { keycode: i32 },
    /// The key with this code went up.
    KeyUp { keycode: i32 },
    /// Anything else.
    Other,
}

/// What the host does after an event.
#[derive(Clone, Copy, Debug, PartialEq, Eq, Structural)]
pub enum HostAction {
    /// Go on with the frame.
    Continue,
    /// Leave the frame loop.
    Quit,
}

/// Whether an event ends the program: closing the window does, and so does
/// pressing Escape.
pub open spec fn ends_program(event: HostEvent) -> bool {
    match event {
        HostEvent::Quit => true,
        HostEvent::KeyDown { keycode } => keycode == ESCAPE_KEY,
        _ => false,
    }
}

/// The machine after an event: a key that stands for a keypad key is pressed
/// or released on the keypad; Escape and every other event leave the machine
/// alone.
pub open spec fn after_event(state: MachineState, event: HostEvent) -> MachineState {
    match event {
        HostEvent::KeyDown { keycode } => if keycode == ESCAPE_KEY {
            state
        } else {
            after_key(state, keycode, true)
        },
        HostEvent::KeyUp { keycode } => after_key(state, keycode, false),
        _ => state,
    }
}

/// The machine after the key with code `keycode` went down or up.
pub open spec fn after_key(state: MachineState, keycode: i32, pressed: bool) -> MachineState {
    match key2btn_spec(keycode) {
        Some(button) => state.set_key_pressed(button, pressed)->Ok_0,
        None => state,
    }
}

/// Forwards a key to the keypad if it stands for a keypad key.
pub fn forward_key(machine: &mut Machine, keycode: i32, pressed: bool)
    ensures
        final(machine)@ == after_key(old(machine)@, keycode, pressed),
{
    match key2btn(keycode) {
        Some(button) => {
            let result = machine.set_key_pressed(button, pressed);
            assert(result is Ok);
        },
        None => {},
    }
}

/// Applies one input event to the machine and says whether to go on.
pub fn handle_event(machine: &mut Machine, event: HostEvent) -> (action: HostAction)
    ensures
        action == (if ends_program(event) {
            HostAction::Quit
        } else {
            HostAction::Continue
        }),
        final(machine)@ == after_event(old(machine)@, event),
{
    match event {
        HostEvent::Quit => HostAction::Quit,
        HostEvent::KeyDown { keycode } => {
            if keycode == ESCAPE_KEY {
                HostAction::Quit
            } else {
                forward_key(machine, keycode, true);
                HostAction::Continue
            }
        },
        HostEvent::KeyUp { keycode } => {
            forward_key(machine, keycode, false);
            HostAction::Continue
        },
        HostEvent::Other => HostAction::Continue,
    }
}

/// A rectangle of window pixels.
#[derive(Clone, Copy, Debug, PartialEq, Eq, Structural)]
pub struct PixelRect {
    pub x: i32,
    pub y: i32,
    pub width: u32,
    pub height: u32,
}

/// The square that display cell `cell` is painted as: cell `(column, row)`
/// covers the window pixels from `(15 * column, 15 * row)`, 15 wide and high.
pub open spec fn cell_rect(cell: int) -> PixelRect {
    PixelRect {
        x: ((cell % 64) * 15) as i32,
        y: ((cell / 64) * 15) as i32,
        width: 15,
        height: 15,
    }
}

/// The lit cells among the first `display.len()` cells, in rising order.
pub open spec fn lit_cells(display: Seq<bool>) -> Seq<int>
    decreases display.len(),
{
    if display.len() == 0 {
        Seq::empty()
    } else if display.last() {
        lit_cells(display.drop_last()).push(display.len() - 1)
    } else {
        lit_cells(display.drop_last())
    }
}

/// The squares to paint for a display: one for each lit cell, in the order
/// of the cells.
pub open spec fn lit_rects_spec(display: Seq<bool>) -> Seq<PixelRect> {
    lit_cells(display).map_values(|cell: int| cell_rect(cell))
}

/// The squares to paint, on a cleared window, to show the display.
pub fn lit_rects(display: &[bool; 2048]) -> (rects: Vec<PixelRect>)
    ensures
        rects@ == lit_rects_spec(display@),
{
    let mut rects: Vec<PixelRect> = Vec::new();
    let mut cell: usize = 0;
    assert(display@.take(0) =~= Seq::<bool>::empty());
    while cell < 2048
        invariant
            cell <= 2048,
            rects@ == lit_rects_spec(display@.take(cell as int)),
        decreases 2048 - cell,
    {
        let ghost seen = display@.take(cell as int);
        let ghost next = display@.take(cell + 1);
        assert(next.drop_last() =~= seen);
        if display[cell] {
            let column = (cell % 64) as u32;
            let row = (cell / 64) as u32;
            rects.push(
                PixelRect {
                    x: (column * SCALE) as i32,
                    y: (row * SCALE) as i32,
                    width: SCALE,
                    height: SCALE,
                },
            );
            assert(rects@ =~= lit_rects_spec(next));
        }
        cell += 1;
    }
    assert(display@.take(2048) =~= display@);
    rects
}

/// What a frame does to the machine: one cycle for each byte of `randoms`,
/// then one timer tick. A frame fails with the first cycle that does.
pub open spec fn frame(state: MachineState, randoms: Seq<u8>) -> Result<MachineState, Chip8Error> {
    match state.run(randoms) {
        Ok(ran) => Ok(ran.tick_timers()),
        Err(fault) => Err(fault),
    }
}

/// One frame's worth of machine time: [`TICKS_PER_FRAME`] cycles, then one
/// timer tick.
///
/// The frame stops at the first cycle that fails and hands the failure back;
/// the machine then stands at the failing instruction, with the cycles
/// before it done and the timers not ticked. The random bytes that the
/// cycles drew are whatever the generator gave.
pub fn run_frame(machine: &mut Machine) -> (result: Result<(), Chip8Error>)
    ensures
        match result {
            Ok(_) => exists|randoms: Seq<u8>|
                randoms.len() == 10 && #[trigger] frame(old(machine)@, randoms) == Ok::<
                    MachineState,
                    Chip8Error,
                >(final(machine)@),
            Err(fault) => exists|randoms: Seq<u8>|
                randoms.len() < 10 && #[trigger] old(machine)@.run(randoms) == Ok::<
                    MachineState,
                    Chip8Error,
                >(final(machine)@) && final(machine)@.step(0) == Err::<MachineState, Chip8Error>(
                    fault,
                ),
        },
{
    let ghost start = machine@;
    let ghost mut randoms: Seq<u8> = Seq::empty();
    let mut cycle: usize = 0;
    while cycle < TICKS_PER_FRAME
        invariant
            cycle <= 10,
            randoms.len() == cycle,
            start == old(machine)@,
            start.run(randoms) == Ok::<MachineState, Chip8Error>(machine@),
        decreases 10 - cycle,
    {
        let ghost before = machine@;
        match machine.execute_cycle() {
            Err(fault) => {
                return Err(fault);
            },
            Ok(_) => {
                proof {
                    let random = choose|random: u8|
                        outcome(Ok(()), machine@) == #[trigger] before.step(random);
                    let ghost longer = randoms.push(random);
                    assert(longer.drop_last() =~= randoms);
                    randoms = longer;
                }
            },
        }
        cycle += 1;
    }
    machine.tick_timers();
    proof {
        assert(frame(start, randoms) == Ok::<MachineState, Chip8Error>(machine@));
    }
    Ok(())
}

} // verus!
