use chip8::machine::Chip8;
use chip8::machine::Fault;

fn draw_machine(hi: u8, lo: u8) -> Chip8 {
    let mut m = Chip8::new();
    m.memory[0x200] = hi;
    m.memory[0x201] = lo;
    m
}

#[test]
fn draw_one_row_sets_pixels() {
    let mut m = draw_machine(0xD0, 0x11);
    m.index = 0x400;
    m.memory[0x400] = 0b1010_0001;
    assert_eq!(m.cycle(), Ok(()));
    assert_eq!(m.framebuffer[0], 1);
    assert_eq!(m.framebuffer[1], 0);
    assert_eq!(m.framebuffer[2], 1);
    assert_eq!(m.framebuffer[3], 0);
    assert_eq!(m.framebuffer[7], 1);
    assert_eq!(m.framebuffer[8], 0);
    assert_eq!(m.registers[0xF], 0);
    assert!(m.need_redraw);
    assert_eq!(m.program_counter, 0x202);
}

#[test]
fn draw_at_offset_coordinates() {
    let mut m = draw_machine(0xD0, 0x12);
    m.registers[0] = 10;
    m.registers[1] = 5;
    m.memory[0x200] = 0xD0;
    m.memory[0x201] = 0x12;
    m.index = 0x400;
    m.memory[0x400] = 0x80;
    m.memory[0x401] = 0x01;
    assert_eq!(m.cycle(), Ok(()));
    // row 5: leftmost sprite bit at column 10; row 6: rightmost at column 17
    assert_eq!(m.framebuffer[5 * 64 + 10], 1);
    assert_eq!(m.framebuffer[6 * 64 + 17], 1);
    assert_eq!(m.framebuffer[5 * 64 + 11], 0);
}

#[test]
fn draw_wraps_around_both_edges() {
    let mut m = draw_machine(0xD0, 0x12);
    m.registers[0] = 60;
    m.registers[1] = 31;
    m.index = 0x400;
    m.memory[0x400] = 0xFF;
    m.memory[0x401] = 0xFF;
    assert_eq!(m.cycle(), Ok(()));
    // columns 60..63 and the wrapped 0..3, on row 31 and the wrapped row 0
    assert_eq!(m.framebuffer[31 * 64 + 60], 1);
    assert_eq!(m.framebuffer[31 * 64 + 63], 1);
    assert_eq!(m.framebuffer[31 * 64 + 0], 1);
    assert_eq!(m.framebuffer[31 * 64 + 3], 1);
    assert_eq!(m.framebuffer[31 * 64 + 4], 0);
    assert_eq!(m.framebuffer[0 * 64 + 60], 1);
    assert_eq!(m.framebuffer[0 * 64 + 2], 1);
    assert_eq!(m.framebuffer[0 * 64 + 4], 0);
}

#[test]
fn draw_same_sprite_twice_clears_and_collides() {
    let mut m = draw_machine(0xD0, 0x13);
    m.registers[0] = 3;
    m.registers[1] = 2;
    m.index = 0x400;
    m.memory[0x400] = 0x3C;
    m.memory[0x401] = 0x42;
    m.memory[0x402] = 0x81;
    assert_eq!(m.cycle(), Ok(()));
    assert_eq!(m.registers[0xF], 0);
    assert!(m.framebuffer.iter().any(|&p| p == 1));
    // the same draw again, from the advanced program counter
    m.memory[0x202] = 0xD0;
    m.memory[0x203] = 0x13;
    assert_eq!(m.cycle(), Ok(()));
    // XOR compositing: every pixel the first draw set is cleared again
    assert!(m.framebuffer.iter().all(|&p| p == 0));
    // and the overlap is reported as a collision
    assert_eq!(m.registers[0xF], 1);
}

#[test]
fn draw_collision_clears_pixel_and_sets_flag() {
    let mut m = draw_machine(0xD0, 0x11);
    m.index = 0x400;
    m.memory[0x400] = 0x80;
    m.framebuffer[0] = 1;
    assert_eq!(m.cycle(), Ok(()));
    assert_eq!(m.framebuffer[0], 0);
    assert_eq!(m.registers[0xF], 1);
}

#[test]
fn draw_zero_rows_changes_nothing_but_signals_redraw() {
    let mut m = draw_machine(0xD0, 0x10);
    m.index = 0x400;
    assert_eq!(m.cycle(), Ok(()));
    assert!(m.framebuffer.iter().all(|&p| p == 0));
    assert_eq!(m.registers[0xF], 0);
    assert!(m.need_redraw);
}

#[test]
fn draw_sprite_past_memory_faults() {
    let mut m = draw_machine(0xD0, 0x1F);
    m.index = 4090;
    assert_eq!(m.cycle(), Err(Fault::MemoryOutOfBounds));
    assert!(m.framebuffer.iter().all(|&p| p == 0));
    assert!(!m.need_redraw);
    assert_eq!(m.program_counter, 0x200);
}
