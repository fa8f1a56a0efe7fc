use chip8_core::host::{
    handle_event, key2btn, lit_rects, run_frame, forward_key, HostAction, HostEvent, PixelRect,
    ESCAPE_KEY, KEY_CODES, SCALE, TICKS_PER_FRAME, WINDOW_HEIGHT, WINDOW_WIDTH,
};
use chip8_core::{Chip8Error, Machine, SCREEN_HEIGHT, SCREEN_WIDTH};

fn loaded(program: &[u8]) -> Machine {
    let mut machine = Machine::new();
    machine.load(program).expect("program fits");
    machine
}

fn code(key: char) -> i32 {
    key as i32
}

#[test]
fn window_is_the_display_scaled() {
    assert_eq!(SCALE, 15);
    assert_eq!(WINDOW_WIDTH, SCALE * SCREEN_WIDTH as u32);
    assert_eq!(WINDOW_HEIGHT, SCALE * SCREEN_HEIGHT as u32);
    assert_eq!(TICKS_PER_FRAME, 10);
}

#[test]
fn key2btn_maps_the_keyboard_block_to_the_keypad() {
    assert_eq!(key2btn(code('1')), Some(0x1));
    assert_eq!(key2btn(code('2')), Some(0x2));
    assert_eq!(key2btn(code('3')), Some(0x3));
    assert_eq!(key2btn(code('4')), Some(0xC));
    assert_eq!(key2btn(code('q')), Some(0x4));
    assert_eq!(key2btn(code('w')), Some(0x5));
    assert_eq!(key2btn(code('e')), Some(0x6));
    assert_eq!(key2btn(code('r')), Some(0xD));
    assert_eq!(key2btn(code('a')), Some(0x7));
    assert_eq!(key2btn(code('s')), Some(0x8));
    assert_eq!(key2btn(code('d')), Some(0x9));
    assert_eq!(key2btn(code('f')), Some(0xE));
    assert_eq!(key2btn(code('z')), Some(0xA));
    assert_eq!(key2btn(code('x')), Some(0x0));
    assert_eq!(key2btn(code('c')), Some(0xB));
    assert_eq!(key2btn(code('v')), Some(0xF));
}

#[test]
fn key2btn_knows_no_other_key() {
    assert_eq!(key2btn(ESCAPE_KEY), None);
    assert_eq!(key2btn(code('5')), None);
    assert_eq!(key2btn(code('0')), None);
    assert_eq!(key2btn(code('g')), None);
    assert_eq!(key2btn(code('Q')), None);
    assert_eq!(key2btn(code(' ')), None);
    assert_eq!(key2btn(0), None);
    assert_eq!(key2btn(-1), None);
    assert_eq!(key2btn(i32::MAX), None);
    let mapped = (i32::from(u8::MIN)..=i32::from(u8::MAX))
        .filter(|&keycode| key2btn(keycode).is_some())
        .count();
    assert_eq!(mapped, 16);
}

#[test]
fn key_codes_table_is_the_inverse_of_key2btn() {
    for button in 0..16 {
        assert_eq!(key2btn(KEY_CODES[button]), Some(button));
    }
}

#[test]
fn handle_event_presses_and_releases_keys() {
    let mut machine = Machine::new();
    assert_eq!(
        handle_event(&mut machine, HostEvent::KeyDown { keycode: code('w') }),
        HostAction::Continue
    );
    assert!(machine.keypad()[5]);
    assert_eq!(machine.keypad().iter().filter(|&&down| down).count(), 1);
    assert_eq!(
        handle_event(&mut machine, HostEvent::KeyUp { keycode: code('w') }),
        HostAction::Continue
    );
    assert_eq!(machine.keypad(), &[false; 16]);
}

#[test]
fn handle_event_ignores_keys_outside_the_block() {
    let mut machine = Machine::new();
    machine.set_key_pressed(2, true).unwrap();
    assert_eq!(
        handle_event(&mut machine, HostEvent::KeyDown { keycode: code('p') }),
        HostAction::Continue
    );
    assert_eq!(
        handle_event(&mut machine, HostEvent::KeyUp { keycode: ESCAPE_KEY }),
        HostAction::Continue
    );
    assert_eq!(handle_event(&mut machine, HostEvent::Other), HostAction::Continue);
    let mut expected = [false; 16];
    expected[2] = true;
    assert_eq!(machine.keypad(), &expected);
}

#[test]
fn handle_event_quits_on_close_and_escape() {
    let mut machine = Machine::new();
    assert_eq!(handle_event(&mut machine, HostEvent::Quit), HostAction::Quit);
    assert_eq!(
        handle_event(&mut machine, HostEvent::KeyDown { keycode: ESCAPE_KEY }),
        HostAction::Quit
    );
    assert_eq!(machine.keypad(), &[false; 16]);
    assert_eq!(machine.program_counter(), 0x200);
}

#[test]
fn handle_event_completes_a_wait_for_key() {
    // LD V2, K
    let mut machine = loaded(&[0xF2, 0x0A]);
    machine.execute_cycle().unwrap();
    assert!(machine.is_awaiting_key());
    handle_event(&mut machine, HostEvent::KeyUp { keycode: code('v') });
    assert!(machine.is_awaiting_key());
    handle_event(&mut machine, HostEvent::KeyDown { keycode: code('v') });
    assert!(!machine.is_awaiting_key());
    assert_eq!(machine.registers()[2], 0xF);
    assert_eq!(machine.program_counter(), 0x202);
}

#[test]
fn forward_key_sets_the_key_it_stands_for() {
    let mut machine = Machine::new();
    forward_key(&mut machine, code('x'), true);
    forward_key(&mut machine, code('n'), true);
    let mut expected = [false; 16];
    expected[0] = true;
    assert_eq!(machine.keypad(), &expected);
    forward_key(&mut machine, code('x'), false);
    assert_eq!(machine.keypad(), &[false; 16]);
}

#[test]
fn lit_rects_of_a_blank_display_is_empty() {
    assert!(lit_rects(&[false; 2048]).is_empty());
}

#[test]
fn lit_rects_has_a_square_for_each_lit_cell() {
    let mut display = [false; 2048];
    display[0] = true;
    display[63] = true;
    display[64] = true;
    display[5 * 64 + 7] = true;
    display[2047] = true;
    let square = |x: i32, y: i32| PixelRect { x, y, width: 15, height: 15 };
    assert_eq!(
        lit_rects(&display),
        vec![square(0, 0), square(945, 0), square(0, 15), square(105, 75), square(945, 465)]
    );
}

#[test]
fn lit_rects_of_a_full_display_covers_the_window() {
    let rects = lit_rects(&[true; 2048]);
    assert_eq!(rects.len(), 2048);
    for (cell, rect) in rects.iter().enumerate() {
        assert_eq!(rect.x, (cell % 64) as i32 * 15);
        assert_eq!(rect.y, (cell / 64) as i32 * 15);
        assert_eq!((rect.width, rect.height), (15, 15));
        assert!(rect.x as u32 + rect.width <= WINDOW_WIDTH);
        assert!(rect.y as u32 + rect.height <= WINDOW_HEIGHT);
    }
}

#[test]
fn lit_rects_shows_what_the_machine_drew() {
    // LD V0, 4; LD V1, 2; LD I, 0x208; DRW V0, V1, 1; sprite 0x81
    let mut machine = loaded(&[0x60, 0x04, 0x61, 0x02, 0xA2, 0x08, 0xD0, 0x11, 0x81]);
    for _ in 0..4 {
        machine.execute_cycle().unwrap();
    }
    assert_eq!(
        lit_rects(machine.get_display()),
        vec![
            PixelRect { x: 60, y: 30, width: 15, height: 15 },
            PixelRect { x: 165, y: 30, width: 15, height: 15 },
        ]
    );
}

#[test]
fn run_frame_runs_ten_cycles_and_one_tick() {
    // LD V1, 5; LD DT, V1; then ADD V0, 1 over and over
    let mut program = vec![0x61, 0x05, 0xF1, 0x15];
    for _ in 0..30 {
        program.extend_from_slice(&[0x70, 0x01]);
    }
    let mut machine = loaded(&program);
    assert_eq!(run_frame(&mut machine), Ok(()));
    assert_eq!(machine.program_counter(), 0x200 + 2 * 10);
    assert_eq!(machine.registers()[0], 8);
    assert_eq!(machine.delay_timer(), 4);
    assert_eq!(run_frame(&mut machine), Ok(()));
    assert_eq!(machine.program_counter(), 0x200 + 2 * 20);
    assert_eq!(machine.registers()[0], 18);
    assert_eq!(machine.delay_timer(), 3);
}

#[test]
fn run_frame_stops_at_a_failing_cycle() {
    // LD V1, 5; LD DT, V1; ADD V0, 1; then empty memory
    let mut machine = loaded(&[0x61, 0x05, 0xF1, 0x15, 0x70, 0x01]);
    assert_eq!(
        run_frame(&mut machine),
        Err(Chip8Error::UnknownOpcode { opcode: 0, program_counter: 0x206 })
    );
    assert_eq!(machine.program_counter(), 0x206);
    assert_eq!(machine.registers()[0], 1);
    // the timers were not ticked
    assert_eq!(machine.delay_timer(), 5);
}

#[test]
fn run_frame_ticks_timers_while_waiting_for_a_key() {
    // LD V1, 5; LD DT, V1; LD V0, K
    let mut machine = loaded(&[0x61, 0x05, 0xF1, 0x15, 0xF0, 0x0A]);
    assert_eq!(run_frame(&mut machine), Ok(()));
    assert!(machine.is_awaiting_key());
    assert_eq!(machine.program_counter(), 0x204);
    assert_eq!(machine.delay_timer(), 4);
    assert_eq!(run_frame(&mut machine), Ok(()));
    assert_eq!(machine.program_counter(), 0x204);
    assert_eq!(machine.delay_timer(), 3);
}
