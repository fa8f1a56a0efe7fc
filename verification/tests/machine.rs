use chip8_core::{Chip8Error, Machine, FONT_DATA, MAX_PROGRAM_SIZE};

fn loaded(program: &[u8]) -> Machine {
    let mut machine = Machine::new();
    machine.load(program).expect("program fits");
    machine
}

fn run(machine: &mut Machine, cycles: usize) {
    for _ in 0..cycles {
        machine.execute_cycle_with(0).expect("cycle succeeds");
    }
}

#[test]
fn new_machine_is_in_reset_state() {
    let machine = Machine::new();
    assert_eq!(machine.program_counter(), 0x200);
    assert_eq!(machine.index_register(), 0);
    assert_eq!(machine.stack_pointer(), 0);
    assert_eq!(machine.delay_timer(), 0);
    assert_eq!(machine.sound_timer(), 0);
    assert!(!machine.is_awaiting_key());
    assert!(machine.registers().iter().all(|&v| v == 0));
    assert!(machine.get_display().iter().all(|&cell| !cell));
    assert!(machine.keypad().iter().all(|&key| !key));
    assert_eq!(&machine.memory()[..80], &FONT_DATA[..]);
    assert!(machine.memory()[80..].iter().all(|&b| b == 0));
}

#[test]
fn font_has_the_standard_glyphs() {
    assert_eq!(&FONT_DATA[0..5], &[0xF0, 0x90, 0x90, 0x90, 0xF0]);
    assert_eq!(&FONT_DATA[5..10], &[0x20, 0x60, 0x20, 0x20, 0x70]);
    assert_eq!(&FONT_DATA[75..80], &[0xF0, 0x80, 0xF0, 0x80, 0x80]);
}

#[test]
fn load_places_image_at_0x200() {
    let program = [0x12, 0x34, 0x56, 0x78, 0x9A];
    let machine = loaded(&program);
    assert_eq!(&machine.memory()[0x200..0x205], &program[..]);
    assert_eq!(&machine.memory()[..80], &FONT_DATA[..]);
    assert_eq!(&machine.memory()[..0x200], &Machine::new().memory()[..0x200]);
    assert!(machine.memory()[0x205..].iter().all(|&b| b == 0));
}

#[test]
fn load_resets_the_machine() {
    // LD V3, 0x44; LD I, 0x005; LD DT, V3; LD ST, V3; CALL 0x20A; DRW V0, V0, 5
    let mut machine = loaded(&[
        0x63, 0x44, 0xA0, 0x05, 0xF3, 0x15, 0xF3, 0x18, 0x22, 0x0A, 0xD0, 0x05,
    ]);
    machine.set_key_pressed(7, true).unwrap();
    run(&mut machine, 6);
    assert_eq!(machine.registers()[3], 0x44);
    assert_eq!(machine.stack_pointer(), 1);
    assert_eq!(machine.index_register(), 5);
    assert!(machine.get_display().iter().any(|&cell| cell));

    machine.load(&[0x00, 0xE0]).unwrap();
    assert_eq!(machine.program_counter(), 0x200);
    assert_eq!(machine.stack_pointer(), 0);
    assert_eq!(machine.index_register(), 0);
    assert_eq!(machine.delay_timer(), 0);
    assert_eq!(machine.sound_timer(), 0);
    assert!(machine.registers().iter().all(|&v| v == 0));
    assert!(machine.get_display().iter().all(|&cell| !cell));
    assert!(machine.keypad().iter().all(|&key| !key));
    assert_eq!(&machine.memory()[0x200..0x202], &[0x00, 0xE0]);
    assert!(machine.memory()[0x202..].iter().all(|&b| b == 0));
}

#[test]
fn load_accepts_an_image_that_fills_memory() {
    assert_eq!(MAX_PROGRAM_SIZE, 3584);
    let program = vec![0xABu8; 3584];
    let machine = loaded(&program);
    assert_eq!(machine.memory()[0x200], 0xAB);
    assert_eq!(machine.memory()[4095], 0xAB);
    assert_eq!(&machine.memory()[..80], &FONT_DATA[..]);
}

#[test]
fn load_accepts_an_empty_image() {
    let machine = loaded(&[]);
    assert!(machine.memory()[0x200..].iter().all(|&b| b == 0));
    assert_eq!(machine.program_counter(), 0x200);
}

#[test]
fn load_refuses_an_image_that_is_too_long() {
    let mut machine = loaded(&[0x61, 0x07]);
    run(&mut machine, 1);
    let program = vec![0xFFu8; 3585];
    assert_eq!(machine.load(&program), Err(Chip8Error::LoadError { length: 3585 }));
    // nothing was touched
    assert_eq!(machine.registers()[1], 0x07);
    assert_eq!(machine.program_counter(), 0x202);
    assert_eq!(&machine.memory()[0x200..0x202], &[0x61, 0x07]);
    assert_eq!(machine.memory()[0x202], 0);
}

#[test]
fn tick_timers_counts_down_and_stops_at_zero() {
    // LD V0, 2; LD DT, V0; LD V0, 1; LD ST, V0
    let mut machine = loaded(&[0x60, 0x02, 0xF0, 0x15, 0x60, 0x01, 0xF0, 0x18]);
    run(&mut machine, 4);
    assert_eq!((machine.delay_timer(), machine.sound_timer()), (2, 1));
    machine.tick_timers();
    assert_eq!((machine.delay_timer(), machine.sound_timer()), (1, 0));
    machine.tick_timers();
    assert_eq!((machine.delay_timer(), machine.sound_timer()), (0, 0));
    machine.tick_timers();
    assert_eq!((machine.delay_timer(), machine.sound_timer()), (0, 0));
}

#[test]
fn tick_timers_at_zero_stays_at_zero() {
    let mut machine = Machine::new();
    assert_eq!(machine.delay_timer(), 0);
    machine.tick_timers();
    assert_eq!(machine.delay_timer(), 0);
    assert_eq!(machine.sound_timer(), 0);
    assert_eq!(machine.program_counter(), 0x200);
}

#[test]
fn timers_do_not_tick_with_cycles() {
    // LD V0, 9; LD DT, V0; JP 0x204
    let mut machine = loaded(&[0x60, 0x09, 0xF0, 0x15, 0x12, 0x04]);
    run(&mut machine, 20);
    assert_eq!(machine.delay_timer(), 9);
}

#[test]
fn set_key_pressed_sets_and_clears_one_key() {
    let mut machine = Machine::new();
    assert_eq!(machine.set_key_pressed(0xA, true), Ok(()));
    let mut expected = [false; 16];
    expected[0xA] = true;
    assert_eq!(machine.keypad(), &expected);
    // idempotent
    assert_eq!(machine.set_key_pressed(0xA, true), Ok(()));
    assert_eq!(machine.keypad(), &expected);
    assert_eq!(machine.set_key_pressed(0xA, false), Ok(()));
    assert_eq!(machine.keypad(), &[false; 16]);
    assert_eq!(machine.program_counter(), 0x200);
}

#[test]
fn set_key_pressed_refuses_an_index_out_of_range() {
    let mut machine = Machine::new();
    machine.set_key_pressed(15, true).unwrap();
    assert_eq!(
        machine.set_key_pressed(16, true),
        Err(Chip8Error::InvalidKeyIndex { key_index: 16 })
    );
    assert_eq!(
        machine.set_key_pressed(usize::MAX, false),
        Err(Chip8Error::InvalidKeyIndex { key_index: usize::MAX })
    );
    let mut expected = [false; 16];
    expected[15] = true;
    assert_eq!(machine.keypad(), &expected);
}

#[test]
fn fetch_beyond_memory_fails() {
    // JP 0xFFF: the second byte of the next word would be at 0x1000
    let mut machine = loaded(&[0x1F, 0xFF]);
    run(&mut machine, 1);
    assert_eq!(machine.program_counter(), 0xFFF);
    assert_eq!(
        machine.execute_cycle(),
        Err(Chip8Error::FetchOutOfBounds { program_counter: 0xFFF })
    );
    assert_eq!(machine.program_counter(), 0xFFF);
}

#[test]
fn fetch_of_the_last_word_of_memory_succeeds() {
    let mut program = vec![0u8; 3584];
    program[0] = 0x1F; // JP 0xFFE
    program[1] = 0xFE;
    program[3582] = 0x6A; // at 0xFFE: LD VA, 0x55
    program[3583] = 0x55;
    let mut machine = loaded(&program);
    run(&mut machine, 2);
    assert_eq!(machine.registers()[0xA], 0x55);
    assert_eq!(machine.program_counter(), 0x1000);
    assert_eq!(
        machine.execute_cycle(),
        Err(Chip8Error::FetchOutOfBounds { program_counter: 0x1000 })
    );
}

#[test]
fn unknown_opcode_reports_word_and_address() {
    // LD V0, 1; then 0x5AB1, which is no instruction
    let mut machine = loaded(&[0x60, 0x01, 0x5A, 0xB1]);
    run(&mut machine, 1);
    assert_eq!(
        machine.execute_cycle(),
        Err(Chip8Error::UnknownOpcode { opcode: 0x5AB1, program_counter: 0x202 })
    );
    // the machine stands where it stood, and fails again
    assert_eq!(machine.program_counter(), 0x202);
    assert_eq!(machine.registers()[0], 1);
    assert_eq!(
        machine.execute_cycle_with(7),
        Err(Chip8Error::UnknownOpcode { opcode: 0x5AB1, program_counter: 0x202 })
    );
}

#[test]
fn empty_memory_is_not_an_instruction() {
    let mut machine = Machine::new();
    assert_eq!(
        machine.execute_cycle(),
        Err(Chip8Error::UnknownOpcode { opcode: 0x0000, program_counter: 0x200 })
    );
}

#[test]
fn call_then_return_continues_after_the_call() {
    // 0x200: CALL 0x206; 0x206: RET
    let mut machine = loaded(&[0x22, 0x06, 0x00, 0x00, 0x00, 0x00, 0x00, 0xEE]);
    let before = machine.program_counter();
    run(&mut machine, 1);
    assert_eq!(machine.program_counter(), 0x206);
    assert_eq!(machine.stack_pointer(), 1);
    run(&mut machine, 1);
    assert_eq!(machine.program_counter(), before + 2);
    assert_eq!(machine.stack_pointer(), 0);
}

#[test]
fn nested_calls_return_in_reverse_order() {
    // 0x200: CALL 0x204; 0x202: LD V0, 1; 0x204: CALL 0x208; 0x206: RET; 0x208: RET
    let mut machine = loaded(&[0x22, 0x04, 0x60, 0x01, 0x22, 0x08, 0x00, 0xEE, 0x00, 0xEE]);
    run(&mut machine, 2);
    assert_eq!((machine.program_counter(), machine.stack_pointer()), (0x208, 2));
    run(&mut machine, 1);
    assert_eq!((machine.program_counter(), machine.stack_pointer()), (0x206, 1));
    run(&mut machine, 1);
    assert_eq!((machine.program_counter(), machine.stack_pointer()), (0x202, 0));
    run(&mut machine, 1);
    assert_eq!(machine.registers()[0], 1);
}

#[test]
fn seventeenth_call_overflows_the_stack() {
    // each word calls the next one
    let mut program = Vec::new();
    for i in 0..17u16 {
        let target = 0x200 + 2 * (i + 1);
        program.push(0x20 | (target >> 8) as u8);
        program.push((target & 0xFF) as u8);
    }
    let mut machine = loaded(&program);
    for depth in 1..=16 {
        assert_eq!(machine.execute_cycle(), Ok(()));
        assert_eq!(machine.stack_pointer(), depth);
    }
    assert_eq!(machine.program_counter(), 0x220);
    assert_eq!(
        machine.execute_cycle(),
        Err(Chip8Error::StackOverflow { program_counter: 0x220 })
    );
    assert_eq!(machine.stack_pointer(), 16);
    assert_eq!(machine.program_counter(), 0x220);
}

#[test]
fn return_with_empty_stack_underflows() {
    let mut machine = loaded(&[0x00, 0xEE]);
    assert_eq!(
        machine.execute_cycle(),
        Err(Chip8Error::StackUnderflow { program_counter: 0x200 })
    );
    assert_eq!(machine.program_counter(), 0x200);
    assert_eq!(machine.stack_pointer(), 0);
}

#[test]
fn wait_for_key_suspends_until_a_key_press() {
    // 0x200: LD V5, K; 0x202: LD V1, 0x33
    let mut machine = loaded(&[0xF5, 0x0A, 0x61, 0x33]);
    for _ in 0..5 {
        assert_eq!(machine.execute_cycle(), Ok(()));
        assert_eq!(machine.program_counter(), 0x200);
        assert!(machine.is_awaiting_key());
    }
    // a release does not end the wait
    machine.set_key_pressed(3, false).unwrap();
    run(&mut machine, 1);
    assert_eq!(machine.program_counter(), 0x200);
    assert!(machine.is_awaiting_key());

    machine.set_key_pressed(0xB, true).unwrap();
    assert!(!machine.is_awaiting_key());
    assert_eq!(machine.registers()[5], 0xB);
    assert!(machine.keypad()[0xB]);
    assert_eq!(machine.program_counter(), 0x202);
    run(&mut machine, 1);
    assert_eq!(machine.program_counter(), 0x204);
    assert_eq!(machine.registers()[1], 0x33);
    assert_eq!(machine.registers()[5], 0xB);
}

#[test]
fn wait_for_key_ignores_keys_that_are_already_down() {
    let mut machine = loaded(&[0xF0, 0x0A]);
    machine.set_key_pressed(4, true).unwrap();
    run(&mut machine, 3);
    assert!(machine.is_awaiting_key());
    assert_eq!(machine.program_counter(), 0x200);
    machine.set_key_pressed(9, true).unwrap();
    assert_eq!(machine.registers()[0], 9);
    assert_eq!(machine.program_counter(), 0x202);
}

#[test]
fn timers_tick_while_waiting_for_a_key() {
    // LD V0, 3; LD DT, V0; LD V1, K
    let mut machine = loaded(&[0x60, 0x03, 0xF0, 0x15, 0xF1, 0x0A]);
    run(&mut machine, 4);
    assert!(machine.is_awaiting_key());
    machine.tick_timers();
    assert_eq!(machine.delay_timer(), 2);
}

#[test]
fn random_byte_is_masked() {
    // RND V0, 0x00; RND V1, 0x0F; JP 0x200
    let mut machine = loaded(&[0xC0, 0x00, 0xC1, 0x0F, 0x12, 0x00]);
    for _ in 0..50 {
        machine.execute_cycle().unwrap();
        machine.execute_cycle().unwrap();
        machine.execute_cycle().unwrap();
        assert_eq!(machine.registers()[0], 0);
        assert!(machine.registers()[1] <= 0x0F);
        assert_eq!(machine.program_counter(), 0x200);
    }
}

#[test]
fn random_byte_varies() {
    // RND V0, 0xFF; JP 0x200
    let mut machine = loaded(&[0xC0, 0xFF, 0x12, 0x00]);
    let mut seen = [false; 256];
    for _ in 0..400 {
        machine.execute_cycle().unwrap();
        seen[machine.registers()[0] as usize] = true;
        machine.execute_cycle().unwrap();
    }
    assert!(seen.iter().filter(|&&s| s).count() > 1);
}

#[test]
fn given_random_byte_is_used() {
    // RND V2, 0xF0
    let mut machine = loaded(&[0xC2, 0xF0]);
    machine.execute_cycle_with(0xAB).unwrap();
    assert_eq!(machine.registers()[2], 0xA0);
    assert_eq!(machine.program_counter(), 0x202);
}
