use chip8::machine::Chip8;
use chip8::machine::Fault;

#[test]
fn new_machine_initial_state() {
    let m = Chip8::new();
    assert_eq!(m.program_counter, 0x200);
    assert_eq!(m.opcode, 0);
    assert_eq!(m.index, 0);
    assert_eq!(m.stack_pointer, 0);
    assert!(m.stack.iter().all(|&s| s == 0));
    assert!(m.registers.iter().all(|&r| r == 0));
    assert!(m.framebuffer.iter().all(|&p| p == 0));
    assert!(m.keys.iter().all(|&k| !k));
    assert_eq!(m.delay_timer, 0);
    assert_eq!(m.sound_timer, 0);
    assert!(!m.wait_for_keys);
    assert!(!m.need_redraw);
}

#[test]
fn new_machine_has_fontset() {
    let m = Chip8::new();
    // glyph 0 starts with 0xF0 0x90, glyph 1 with 0x20 0x60,
    // glyph F ends with 0x80; everything above the fontset is zero
    assert_eq!(m.memory[0], 0xF0);
    assert_eq!(m.memory[1], 0x90);
    assert_eq!(m.memory[5], 0x20);
    assert_eq!(m.memory[6], 0x60);
    assert_eq!(m.memory[79], 0x80);
    assert!(m.memory[80..].iter().all(|&b| b == 0));
}

#[test]
fn fetch_combines_two_bytes_big_endian() {
    let mut m = Chip8::new();
    m.memory[0x200] = 0xAB;
    m.memory[0x201] = 0xCD;
    m.update_opcode();
    assert_eq!(m.opcode, 0xABCD);
    m.program_counter = 0x300;
    m.memory[0x300] = 0x01;
    m.memory[0x301] = 0x02;
    m.update_opcode();
    assert_eq!(m.opcode, 0x0102);
}

#[test]
fn load_small_rom() {
    let mut m = Chip8::new();
    let rom = [0x12u8, 0x34, 0x56];
    assert_eq!(m.load(&rom), Ok(()));
    assert_eq!(m.memory[0x200], 0x12);
    assert_eq!(m.memory[0x201], 0x34);
    assert_eq!(m.memory[0x202], 0x56);
    assert_eq!(m.memory[0x203], 0);
    // the fontset is untouched
    assert_eq!(&m.memory[..80], &chip8::machine::FONTSET[..]);
}

#[test]
fn load_largest_rom_fills_program_region() {
    let mut m = Chip8::new();
    let rom = vec![0xAAu8; 3584];
    assert_eq!(m.load(&rom), Ok(()));
    assert_eq!(m.memory[0x200], 0xAA);
    assert_eq!(m.memory[4095], 0xAA);
    assert_eq!(m.memory[0x1FF], 0);
}

#[test]
fn load_oversized_rom_is_rejected_whole() {
    let mut m = Chip8::new();
    let rom = vec![0xBBu8; 3585];
    assert_eq!(m.load(&rom), Err(Fault::RomTooLarge));
    // nothing was copied, not even a truncated prefix
    assert_eq!(m.memory[0x200], 0);
    assert_eq!(m.memory[4095], 0);
}

#[test]
fn fetch_at_top_of_memory_faults() {
    let mut m = Chip8::new();
    m.program_counter = 4095;
    assert_eq!(m.cycle(), Err(Fault::MemoryOutOfBounds));
    assert_eq!(m.program_counter, 4095);
    m.program_counter = 5000;
    assert_eq!(m.cycle(), Err(Fault::MemoryOutOfBounds));
}

#[test]
fn unknown_opcode_is_reported_and_harmless() {
    let mut m = Chip8::new();
    m.memory[0x200] = 0x01;
    m.memory[0x201] = 0x23;
    m.delay_timer = 9;
    assert_eq!(m.cycle(), Err(Fault::UnimplementedOpcode(0x0123)));
    assert_eq!(m.program_counter, 0x200);
    assert_eq!(m.delay_timer, 9);
    // families 0x8, 0xE and 0xF have undefined low fields too
    m.memory[0x200] = 0x80;
    m.memory[0x201] = 0x08;
    assert_eq!(m.cycle(), Err(Fault::UnimplementedOpcode(0x8008)));
    m.memory[0x200] = 0xE0;
    m.memory[0x201] = 0x00;
    assert_eq!(m.cycle(), Err(Fault::UnimplementedOpcode(0xE000)));
    m.memory[0x200] = 0xF0;
    m.memory[0x201] = 0xFF;
    assert_eq!(m.cycle(), Err(Fault::UnimplementedOpcode(0xF0FF)));
}
