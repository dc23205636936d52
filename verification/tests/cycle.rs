use chip8::cpu::{Chip8Machine, Machine};
use chip8::state::Fault;

const NO_KEYS: [bool; 16] = [false; 16];

fn machine_running(rom: &[u8]) -> Machine {
    let mut machine = Machine::new();
    assert!(machine.load_rom(rom).is_ok());
    machine
}

#[test]
fn run_returns_the_instruction_word() {
    let mut machine = machine_running(&[0x6A, 0x05, 0x12, 0x00]);
    assert_eq!(machine.run(NO_KEYS), 0x6A05);
    assert_eq!(machine.run(NO_KEYS), 0x1200);
    assert_eq!(machine.run(NO_KEYS), 0x6A05);
}

#[test]
fn run_takes_over_the_keys() {
    let mut machine = machine_running(&[0x6A, 0x05, 0x6B, 0x06]);
    let mut keys = [false; 16];
    keys[3] = true;
    keys[0xF] = true;
    machine.run(keys);
    assert_eq!(machine.key_map, keys);
    machine.run(NO_KEYS);
    assert_eq!(machine.key_map, NO_KEYS);
}

#[test]
fn run_lets_the_timers_tick_down_to_zero() {
    let mut machine = machine_running(&[0x12, 0x00]);
    machine.delay_timer = 2;
    machine.sound_timer = 1;
    machine.run(NO_KEYS);
    assert_eq!(machine.delay_timer, 1);
    assert_eq!(machine.sound_timer, 0);
    machine.run(NO_KEYS);
    assert_eq!(machine.delay_timer, 0);
    assert_eq!(machine.sound_timer, 0);
    machine.run(NO_KEYS);
    assert_eq!(machine.delay_timer, 0);
    assert_eq!(machine.sound_timer, 0);
}

#[test]
fn run_ticks_before_it_executes() {
    let mut machine = machine_running(&[0xF3, 0x07]);
    machine.delay_timer = 10;
    machine.run(NO_KEYS);
    assert_eq!(machine.registers[3], 9);
    assert_eq!(machine.delay_timer, 9);
}

#[test]
fn run_sets_a_timer_that_ticks_from_the_next_cycle() {
    let mut machine = machine_running(&[0x61, 0x03, 0xF1, 0x15, 0xF1, 0x18, 0x12, 0x06]);
    machine.run(NO_KEYS);
    machine.run(NO_KEYS);
    assert_eq!(machine.delay_timer, 3);
    machine.run(NO_KEYS);
    assert_eq!(machine.delay_timer, 2);
    assert_eq!(machine.sound_timer, 3);
    machine.run(NO_KEYS);
    assert_eq!(machine.delay_timer, 1);
    assert_eq!(machine.sound_timer, 2);
}

#[test]
fn run_dispatches_the_flow_instructions() {
    let mut machine = machine_running(&[0x22, 0x06, 0x12, 0x08, 0x00, 0x00, 0x00, 0xEE, 0xB3, 0x00]);
    machine.run(NO_KEYS);
    assert_eq!(machine.pc, 0x206);
    assert_eq!(machine.sp, 0);
    assert_eq!(machine.stack[0], 0x200);
    machine.run(NO_KEYS);
    assert_eq!(machine.pc, 0x202);
    assert_eq!(machine.sp, -1);
    machine.run(NO_KEYS);
    assert_eq!(machine.pc, 0x208);
    machine.registers[0] = 0x12;
    machine.run(NO_KEYS);
    assert_eq!(machine.pc, 0x312);
}

#[test]
fn run_dispatches_the_skips() {
    let mut machine = machine_running(&[
        0x31, 0x07, 0x00, 0x00, 0x41, 0x07, 0x51, 0x20, 0x00, 0x00, 0x91, 0x20, 0x91, 0x30,
        0x00, 0x00, 0x31, 0x08,
    ]);
    machine.registers[1] = 7;
    machine.registers[2] = 7;
    machine.registers[3] = 8;
    assert_eq!(machine.run(NO_KEYS), 0x3107);
    assert_eq!(machine.pc, 0x204);
    assert_eq!(machine.run(NO_KEYS), 0x4107);
    assert_eq!(machine.pc, 0x206);
    assert_eq!(machine.run(NO_KEYS), 0x5120);
    assert_eq!(machine.pc, 0x20A);
    assert_eq!(machine.run(NO_KEYS), 0x9120);
    assert_eq!(machine.pc, 0x20C);
    assert_eq!(machine.run(NO_KEYS), 0x9130);
    assert_eq!(machine.pc, 0x210);
    assert_eq!(machine.run(NO_KEYS), 0x3108);
    assert_eq!(machine.pc, 0x212);
}

#[test]
fn run_dispatches_the_register_instructions() {
    let mut machine = machine_running(&[
        0x61, 0xF0, 0x62, 0x3C, 0x71, 0x20, 0x83, 0x10, 0x83, 0x21, 0x84, 0x10, 0x84, 0x22,
        0x85, 0x10, 0x85, 0x23, 0x81, 0x14, 0x82, 0x15, 0x82, 0x06, 0x82, 0x17, 0x82, 0x0E,
    ]);
    machine.run(NO_KEYS);
    machine.run(NO_KEYS);
    assert_eq!(machine.registers[1], 0xF0);
    assert_eq!(machine.registers[2], 0x3C);
    machine.run(NO_KEYS);
    assert_eq!(machine.registers[1], 0x10);
    assert_eq!(machine.registers[0xF], 0);
    machine.run(NO_KEYS);
    assert_eq!(machine.registers[3], 0x10);
    machine.run(NO_KEYS);
    assert_eq!(machine.registers[3], 0x3C);
    machine.run(NO_KEYS);
    machine.run(NO_KEYS);
    assert_eq!(machine.registers[4], 0x10);
    machine.run(NO_KEYS);
    machine.run(NO_KEYS);
    assert_eq!(machine.registers[5], 0x2C);
    machine.run(NO_KEYS);
    assert_eq!(machine.registers[1], 0x20);
    assert_eq!(machine.registers[0xF], 0);
    machine.run(NO_KEYS);
    assert_eq!(machine.registers[2], 0x1C);
    assert_eq!(machine.registers[0xF], 1);
    machine.run(NO_KEYS);
    assert_eq!(machine.registers[2], 0x0E);
    assert_eq!(machine.registers[0xF], 0);
    machine.run(NO_KEYS);
    assert_eq!(machine.registers[2], 0x12);
    assert_eq!(machine.registers[0xF], 1);
    machine.run(NO_KEYS);
    assert_eq!(machine.registers[2], 0x24);
    assert_eq!(machine.registers[0xF], 0);
    assert_eq!(machine.pc, 0x200 + 2 * 14);
}

#[test]
fn run_dispatches_the_index_instructions() {
    let mut machine = machine_running(&[
        0xA3, 0x00, 0x61, 0x7B, 0xF1, 0x33, 0xF1, 0x1E, 0xF1, 0x55, 0xF2, 0x65, 0x62, 0x0A,
        0xF2, 0x29,
    ]);
    machine.run(NO_KEYS);
    assert_eq!(machine.i, 0x300);
    machine.run(NO_KEYS);
    machine.run(NO_KEYS);
    assert_eq!(machine.memory[0x300..0x303], [1, 2, 3]);
    machine.run(NO_KEYS);
    assert_eq!(machine.i, 0x37B);
    machine.registers[0] = 0x99;
    machine.run(NO_KEYS);
    assert_eq!(machine.memory[0x37B..0x37D], [0x99, 0x7B]);
    machine.memory[0x37D] = 0x44;
    machine.registers = [0; 16];
    machine.run(NO_KEYS);
    assert_eq!(machine.registers[0..4], [0x99, 0x7B, 0x44, 0]);
    machine.run(NO_KEYS);
    machine.run(NO_KEYS);
    assert_eq!(machine.i, 50);
    assert_eq!(machine.pc, 0x210);
}

#[test]
fn run_dispatches_the_key_tests() {
    let mut machine = machine_running(&[0xE1, 0x9E, 0x00, 0x00, 0xE1, 0xA1, 0xE1, 0x9E, 0xE1, 0xA1]);
    machine.registers[1] = 4;
    let mut keys = [false; 16];
    keys[4] = true;
    assert_eq!(machine.run(keys), 0xE19E);
    assert_eq!(machine.pc, 0x204);
    assert_eq!(machine.run(keys), 0xE1A1);
    assert_eq!(machine.pc, 0x206);
    assert_eq!(machine.run(NO_KEYS), 0xE19E);
    assert_eq!(machine.pc, 0x208);
    assert_eq!(machine.run(NO_KEYS), 0xE1A1);
    assert_eq!(machine.pc, 0x20C);
}

#[test]
fn run_dispatches_the_random_instruction() {
    let mut machine = machine_running(&[0xC1, 0x0F, 0xC2, 0x00, 0x12, 0x00]);
    for _ in 0..50 {
        machine.registers[1] = 0xFF;
        machine.registers[2] = 0xFF;
        assert_eq!(machine.run(NO_KEYS), 0xC10F);
        assert!(machine.registers[1] <= 0x0F);
        assert_eq!(machine.pc, 0x202);
        assert_eq!(machine.run(NO_KEYS), 0xC200);
        assert_eq!(machine.registers[2], 0);
        assert_eq!(machine.run(NO_KEYS), 0x1200);
    }
}

#[test]
fn run_leaves_the_machine_on_a_word_that_is_no_instruction() {
    for word in [0x0000u16, 0x0123, 0x00E1, 0x5121, 0x8128, 0x812F, 0x9121, 0xE19F, 0xE1A0, 0xF1FF, 0xF100] {
        let mut machine = machine_running(&[(word >> 8) as u8, (word & 0xFF) as u8]);
        machine.registers[1] = 3;
        machine.registers[2] = 5;
        machine.delay_timer = 5;
        assert_eq!(machine.run(NO_KEYS), word);
        assert_eq!(machine.pc, 0x200);
        assert_eq!(machine.registers[1], 3);
        assert_eq!(machine.registers[2], 5);
        assert_eq!(machine.registers[0xF], 0);
        assert_eq!(machine.sp, -1);
        assert_eq!(machine.delay_timer, 4);
        assert_eq!(machine.run(NO_KEYS), word);
        assert_eq!(machine.pc, 0x200);
        assert_eq!(machine.delay_timer, 3);
    }
}

#[test]
fn clear_and_return_come_before_the_class_of_zero() {
    let mut machine = machine_running(&[0x22, 0x04, 0x00, 0x00, 0x00, 0xE0, 0x00, 0xEE]);
    machine.screen[1][1] = true;
    machine.run(NO_KEYS);
    assert_eq!(machine.run(NO_KEYS), 0x00E0);
    assert_eq!(machine.screen, [[false; 32]; 64]);
    assert_eq!(machine.pc, 0x206);
    assert_eq!(machine.run(NO_KEYS), 0x00EE);
    assert_eq!(machine.pc, 0x202);
}

#[test]
fn fault_finds_nothing_in_a_running_program() {
    let machine = machine_running(&[0x6A, 0x05]);
    assert_eq!(machine.fault(), None);
}

#[test]
fn fault_on_a_program_counter_outside_memory() {
    let mut machine = machine_running(&[0x12, 0x00]);
    machine.pc = 0xFFF;
    assert_eq!(machine.fault(), Some(Fault::PcOutOfBounds));
    machine.pc = 0x1000;
    assert_eq!(machine.fault(), Some(Fault::PcOutOfBounds));
    machine.pc = usize::MAX;
    assert_eq!(machine.fault(), Some(Fault::PcOutOfBounds));
    machine.pc = 0xFFE;
    assert_eq!(machine.fault(), None);
}

#[test]
fn fault_on_a_return_with_an_empty_stack() {
    let machine = machine_running(&[0x00, 0xEE]);
    assert_eq!(machine.fault(), Some(Fault::StackUnderflow));
}

#[test]
fn fault_on_a_call_with_a_full_stack() {
    let mut machine = machine_running(&[0x22, 0x00]);
    for depth in 0..16 {
        assert_eq!(machine.fault(), None);
        assert_eq!(machine.run(NO_KEYS), 0x2200);
        assert_eq!(machine.sp, depth);
    }
    assert_eq!(machine.fault(), Some(Fault::StackOverflow));
    assert_eq!(machine.try_run(NO_KEYS), Err(Fault::StackOverflow));
    assert_eq!(machine.sp, 15);
    assert_eq!(machine.stack, vec![0x200u16; 16]);
    assert_eq!(machine.pc, 0x200);
}

#[test]
fn fault_on_a_sprite_beyond_memory() {
    let mut machine = machine_running(&[0xD0, 0x05]);
    machine.i = 0xFFC;
    assert_eq!(machine.fault(), Some(Fault::AddressOutOfBounds));
    machine.i = 0xFFB;
    assert_eq!(machine.fault(), None);
    machine.i = 0xFFFF;
    assert_eq!(machine.fault(), Some(Fault::AddressOutOfBounds));
}

#[test]
fn fault_on_registers_stored_or_loaded_beyond_memory() {
    for low in [0x55u8, 0x65] {
        let mut machine = machine_running(&[0xF3, low]);
        machine.i = 0xFFD;
        assert_eq!(machine.fault(), Some(Fault::AddressOutOfBounds));
        machine.i = 0xFFC;
        assert_eq!(machine.fault(), None);
        assert_eq!(machine.try_run(NO_KEYS), Ok(0xF300 + low as u16));
    }
}

#[test]
fn fault_on_digits_stored_beyond_memory() {
    let mut machine = machine_running(&[0xF3, 0x33]);
    machine.i = 0xFFE;
    assert_eq!(machine.fault(), Some(Fault::AddressOutOfBounds));
    machine.i = 0xFFD;
    assert_eq!(machine.fault(), None);
}

#[test]
fn fault_on_a_key_that_does_not_exist() {
    for low in [0x9Eu8, 0xA1] {
        let mut machine = machine_running(&[0xE3, low]);
        machine.registers[3] = 16;
        assert_eq!(machine.fault(), Some(Fault::KeyOutOfBounds));
        machine.registers[3] = 15;
        assert_eq!(machine.fault(), None);
    }
}

#[test]
fn try_run_runs_a_cycle() {
    let mut machine = machine_running(&[0x6A, 0x05]);
    machine.delay_timer = 3;
    assert_eq!(machine.try_run(NO_KEYS), Ok(0x6A05));
    assert_eq!(machine.registers[0xA], 5);
    assert_eq!(machine.pc, 0x202);
    assert_eq!(machine.delay_timer, 2);
}

#[test]
fn try_run_leaves_the_machine_on_a_fault() {
    let mut machine = machine_running(&[0x00, 0xEE]);
    machine.delay_timer = 3;
    machine.sound_timer = 4;
    let mut keys = [false; 16];
    keys[2] = true;
    assert_eq!(machine.try_run(keys), Err(Fault::StackUnderflow));
    assert_eq!(machine.pc, 0x200);
    assert_eq!(machine.sp, -1);
    assert_eq!(machine.delay_timer, 3);
    assert_eq!(machine.sound_timer, 4);
    assert_eq!(machine.key_map, [false; 16]);
}

#[test]
fn try_run_stops_at_the_end_of_memory() {
    let mut rom = vec![0u8; 3584];
    rom[3582] = 0x6A;
    rom[3583] = 0x05;
    let mut machine = machine_running(&rom);
    machine.pc = 0xFFE;
    assert_eq!(machine.try_run(NO_KEYS), Ok(0x6A05));
    assert_eq!(machine.pc, 0x1000);
    assert_eq!(machine.try_run(NO_KEYS), Err(Fault::PcOutOfBounds));
    assert_eq!(machine.pc, 0x1000);
}
