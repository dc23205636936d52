use chip8::cpu::{Chip8Machine, Machine, OpCodes};
use chip8::graphics::{blocks, color, Block, SCALE_FACTOR, SCREEN_HEIGHT, SCREEN_WIDTH};

#[test]
fn window_is_the_framebuffer_scaled() {
    assert_eq!(SCALE_FACTOR, 20);
    assert_eq!(SCREEN_WIDTH, 1280);
    assert_eq!(SCREEN_HEIGHT, 640);
}

#[test]
fn color_is_white_or_black() {
    assert_eq!(color(true), (255, 255, 255));
    assert_eq!(color(false), (0, 0, 0));
}

#[test]
fn blocks_cover_the_window_column_by_column() {
    let mut pixels = [[false; 32]; 64];
    pixels[0][1] = true;
    pixels[63][31] = true;
    let frame = blocks(&pixels);
    assert_eq!(frame.len(), 2048);
    assert_eq!(frame[0], Block { x: 0, y: 0, width: 20, height: 20, color: (0, 0, 0) });
    assert_eq!(frame[1], Block { x: 0, y: 20, width: 20, height: 20, color: (255, 255, 255) });
    assert_eq!(frame[32], Block { x: 20, y: 0, width: 20, height: 20, color: (0, 0, 0) });
    assert_eq!(
        frame[2047],
        Block { x: 1260, y: 620, width: 20, height: 20, color: (255, 255, 255) }
    );
    for x in 0..64 {
        for y in 0..32 {
            let block = frame[x * 32 + y];
            assert_eq!(block.x, 20 * x as i32);
            assert_eq!(block.y, 20 * y as i32);
            assert_eq!(block.color, color(pixels[x][y]));
        }
    }
}

#[test]
fn take_draw_lowers_the_signal() {
    let mut machine = Machine::new();
    assert!(machine.load_rom(&[]).is_ok());
    assert!(!machine.take_draw());
    machine.display(0, 0, 0);
    assert!(machine.draw);
    assert!(machine.take_draw());
    assert!(!machine.draw);
    assert!(!machine.take_draw());
}
