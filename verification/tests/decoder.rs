use chip8::instruction::{join_2_bytes, Chip8Instruction, DecodableInstruction};

#[test]
fn join_puts_the_high_byte_first() {
    assert_eq!(join_2_bytes(0x12, 0x34), 0x1234);
    assert_eq!(join_2_bytes(0x00, 0x00), 0x0000);
    assert_eq!(join_2_bytes(0xFF, 0xFF), 0xFFFF);
    assert_eq!(join_2_bytes(0x00, 0xE0), 0x00E0);
    assert_eq!(join_2_bytes(0xA2, 0x0A), 0xA20A);
}

#[test]
fn new_keeps_the_raw_word() {
    let instruction = Chip8Instruction::new(0xD0, 0x15);
    assert_eq!(instruction.raw, 0xD015);
}

#[test]
fn new_splits_the_word_into_nibbles() {
    let instruction = Chip8Instruction::new(0xAB, 0xCD);
    assert_eq!(instruction.parts, [0xA, 0xB, 0xC, 0xD]);
    let instruction = Chip8Instruction::new(0x00, 0xEE);
    assert_eq!(instruction.parts, [0x0, 0x0, 0xE, 0xE]);
    let instruction = Chip8Instruction::new(0xF0, 0x0F);
    assert_eq!(instruction.parts, [0xF, 0x0, 0x0, 0xF]);
}

#[test]
fn decoding_is_total() {
    for left in 0..=255u8 {
        for right in 0..=255u8 {
            let instruction = Chip8Instruction::new(left, right);
            let raw = (left as u16) * 256 + right as u16;
            assert_eq!(instruction.raw, raw);
            assert_eq!(instruction.parts[0] as u16, raw / 0x1000);
            assert_eq!(instruction.parts[1] as u16, raw / 0x100 % 16);
            assert_eq!(instruction.parts[2] as u16, raw / 0x10 % 16);
            assert_eq!(instruction.parts[3] as u16, raw % 16);
        }
    }
}

#[test]
fn match_masked_compares_the_selected_bits() {
    let instruction = Chip8Instruction::new(0x12, 0x34);
    assert!(instruction.match_masked(0xF000, 0x1000));
    assert!(!instruction.match_masked(0xF000, 0x2000));
    assert!(instruction.match_masked(0xFFFF, 0x1234));
    assert!(instruction.match_masked(0x0000, 0x0000));
    assert!(!instruction.match_masked(0x0000, 0x0001));
    assert!(instruction.match_masked(0x00FF, 0x0034));
    assert!(!instruction.match_masked(0xF00F, 0x1000));
}

#[test]
fn match_masked_tells_the_key_tests_apart() {
    let pressed = Chip8Instruction::new(0xE3, 0x9E);
    let released = Chip8Instruction::new(0xE3, 0xA1);
    assert!(pressed.match_masked(0xF0FF, 0xE09E));
    assert!(!pressed.match_masked(0xF0FF, 0xE0A1));
    assert!(released.match_masked(0xF0FF, 0xE0A1));
    assert!(!released.match_masked(0xF0FF, 0xE09E));
}
