use chip8::cpu::{Chip8Machine, Machine, OpCodes};

const NO_KEYS: [bool; 16] = [false; 16];

#[test]
fn set_register_program_runs_one_step() {
    let mut machine = Machine::new();
    assert!(machine.load_rom(&[0x6A, 0x05]).is_ok());
    let executed = machine.run(NO_KEYS);
    assert_eq!(executed, 0x6A05);
    assert_eq!(machine.registers[0xA], 5);
    assert_eq!(machine.pc, 0x202);
}

#[test]
fn clear_after_a_draw_blanks_the_screen() {
    let mut machine = Machine::new();
    assert!(machine.load_rom(&[0xA0, 0x00, 0xD0, 0x15, 0x00, 0xE0]).is_ok());
    machine.run(NO_KEYS);
    machine.run(NO_KEYS);
    assert_ne!(machine.screen, [[false; 32]; 64]);
    let before = machine.pc;
    assert_eq!(machine.run(NO_KEYS), 0x00E0);
    assert_eq!(machine.screen, [[false; 32]; 64]);
    assert_eq!(machine.pc, before + 2);
}

#[test]
fn draw_program_draws_the_digit_zero() {
    let mut machine = Machine::new();
    let rom = [
        0xA2, 0x0A, 0xD0, 0x05, 0x00, 0x00, 0x00, 0x00, 0x00, 0x00, 0xF0, 0x90, 0x90, 0x90, 0xF0,
    ];
    assert!(machine.load_rom(&rom).is_ok());
    assert_eq!(machine.run(NO_KEYS), 0xA20A);
    assert_eq!(machine.i, 0x20A);
    assert!(!machine.draw);
    assert_eq!(machine.run(NO_KEYS), 0xD005);
    assert!(machine.draw);
    let rows = [0xF0u8, 0x90, 0x90, 0x90, 0xF0];
    for x in 0..64 {
        for y in 0..32 {
            let lit = y < 5 && x < 8 && (rows[y] >> (7 - x)) & 1 == 1;
            assert_eq!(machine.screen[x][y], lit);
        }
    }
    assert_eq!(machine.registers[0xF], 0);
    assert_eq!(machine.pc, 0x204);
}

#[test]
fn draw_program_with_the_built_in_glyph() {
    let mut machine = Machine::new();
    assert!(machine.load_rom(&[0x60, 0x00, 0xF0, 0x29, 0xD0, 0x05]).is_ok());
    machine.run(NO_KEYS);
    machine.run(NO_KEYS);
    assert_eq!(machine.i, 0);
    machine.run(NO_KEYS);
    assert!(machine.draw);
    assert!(machine.screen[0][0] && machine.screen[3][0]);
    assert!(machine.screen[0][2] && !machine.screen[1][2] && !machine.screen[2][2]);
    assert!(machine.screen[3][4] && !machine.screen[4][4]);
}

#[test]
fn draw_signal_stays_until_it_is_taken() {
    let mut machine = Machine::new();
    assert!(machine.load_rom(&[0xD0, 0x01, 0x60, 0x01, 0xD0, 0x01]).is_ok());
    machine.run(NO_KEYS);
    assert!(machine.draw);
    machine.run(NO_KEYS);
    assert!(machine.draw);
    machine.draw = false;
    machine.run(NO_KEYS);
    assert!(machine.draw);
}

#[test]
fn get_key_blocks_until_a_key_is_pressed() {
    let mut machine = Machine::new();
    assert!(machine.load_rom(&[0xF4, 0x0A, 0x61, 0x01]).is_ok());
    machine.delay_timer = 3;
    for cycle in 0..10u8 {
        assert_eq!(machine.run(NO_KEYS), 0xF40A);
        assert_eq!(machine.pc, 0x200);
        assert_eq!(machine.registers[4], 0);
        assert_eq!(machine.delay_timer, 3u8.saturating_sub(cycle + 1));
    }
    let mut keys = [false; 16];
    keys[0xC] = true;
    assert_eq!(machine.run(keys), 0xF40A);
    assert_eq!(machine.pc, 0x202);
    assert_eq!(machine.registers[4], 0xC);
    assert_eq!(machine.run(keys), 0x6101);
    assert_eq!(machine.pc, 0x204);
}

#[test]
fn stack_depth_never_exceeds_sixteen() {
    let mut machine = Machine::new();
    assert!(machine.load_rom(&[0x22, 0x00]).is_ok());
    let mut deepest = -1;
    for _ in 0..40 {
        if machine.try_run(NO_KEYS).is_err() {
            break;
        }
        assert_eq!(machine.stack.len(), 16);
        deepest = deepest.max(machine.sp);
    }
    assert_eq!(deepest, 15);
    assert_eq!(machine.sp, 15);
    assert!(machine.try_run(NO_KEYS).is_err());
    assert_eq!(machine.sp, 15);
}

#[test]
fn branches_keep_the_program_counter_even_and_in_range() {
    let mut machine = Machine::new();
    assert!(machine.load_rom(&[]).is_ok());
    let valid = |pc: usize| pc % 2 == 0 && (0x200..=0xFFF).contains(&pc);
    machine.jump(0xFFE);
    assert!(valid(machine.pc));
    machine.jump(0x200);
    assert!(valid(machine.pc));
    machine.call(0x400);
    assert!(valid(machine.pc));
    machine.call(0xFFC);
    assert!(valid(machine.pc));
    machine.call(0x300);
    assert!(valid(machine.pc));
    machine.ret();
    assert_eq!(machine.pc, 0xFFE);
    assert!(valid(machine.pc));
    machine.ret();
    assert_eq!(machine.pc, 0x402);
    assert!(valid(machine.pc));
    machine.ret();
    assert_eq!(machine.pc, 0x202);
    assert!(valid(machine.pc));
}

#[test]
fn a_counting_loop_runs_to_its_end() {
    let mut machine = Machine::new();
    let rom = [0x60, 0x00, 0x61, 0x00, 0x70, 0x01, 0x81, 0x04, 0x30, 0x0A, 0x12, 0x04, 0x12, 0x0C];
    assert!(machine.load_rom(&rom).is_ok());
    let mut cycles = 0;
    while machine.pc != 0x20C {
        assert!(machine.try_run(NO_KEYS).is_ok());
        cycles += 1;
        assert!(cycles < 100);
    }
    assert_eq!(machine.registers[0], 10);
    assert_eq!(machine.registers[1], 55);
    assert_eq!(machine.registers[0xF], 0);
    assert_eq!(cycles, 2 + 10 * 4 - 1);
}
