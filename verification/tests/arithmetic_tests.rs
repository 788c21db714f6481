use chip8::machine::Chip8;

fn arith_machine(hi: u8, lo: u8) -> Chip8 {
    let mut m = Chip8::new();
    m.memory[0x200] = hi;
    m.memory[0x201] = lo;
    m
}

#[test]
fn ld_immediate() {
    let mut m = arith_machine(0x63, 0x42);
    assert_eq!(m.cycle(), Ok(()));
    assert_eq!(m.registers[3], 0x42);
    assert_eq!(m.program_counter, 0x202);
}

#[test]
fn add_immediate_wraps_without_flag() {
    let mut m = arith_machine(0x70, 0x0A);
    m.registers[0] = 250;
    m.registers[0xF] = 7;
    assert_eq!(m.cycle(), Ok(()));
    assert_eq!(m.registers[0], 4);
    // ADD Vx,kk touches no flag: VF keeps its previous value
    assert_eq!(m.registers[0xF], 7);
}

#[test]
fn ld_register_copy() {
    let mut m = arith_machine(0x85, 0x20);
    m.registers[2] = 0x99;
    assert_eq!(m.cycle(), Ok(()));
    assert_eq!(m.registers[5], 0x99);
}

#[test]
fn or_and_xor() {
    let mut m = arith_machine(0x80, 0x11);
    m.registers[0] = 0b1100;
    m.registers[1] = 0b1010;
    assert_eq!(m.cycle(), Ok(()));
    assert_eq!(m.registers[0], 0b1110);

    let mut m = arith_machine(0x80, 0x12);
    m.registers[0] = 0b1100;
    m.registers[1] = 0b1010;
    assert_eq!(m.cycle(), Ok(()));
    assert_eq!(m.registers[0], 0b1000);

    let mut m = arith_machine(0x80, 0x13);
    m.registers[0] = 0b1100;
    m.registers[1] = 0b1010;
    assert_eq!(m.cycle(), Ok(()));
    assert_eq!(m.registers[0], 0b0110);
}

#[test]
fn add_registers_with_carry() {
    // 200 + 100 = 300: wraps to 44 and sets the carry flag
    let mut m = arith_machine(0x80, 0x14);
    m.registers[0] = 200;
    m.registers[1] = 100;
    assert_eq!(m.cycle(), Ok(()));
    assert_eq!(m.registers[0], 44);
    assert_eq!(m.registers[0xF], 1);
    assert_eq!(m.program_counter, 0x202);
}

#[test]
fn add_registers_without_carry() {
    let mut m = arith_machine(0x80, 0x14);
    m.registers[0] = 10;
    m.registers[1] = 20;
    m.registers[0xF] = 1;
    assert_eq!(m.cycle(), Ok(()));
    assert_eq!(m.registers[0], 30);
    assert_eq!(m.registers[0xF], 0);
}

#[test]
fn sub_registers_with_borrow() {
    // 10 - 20 wraps to 246; VF = 0 says a borrow happened
    let mut m = arith_machine(0x80, 0x15);
    m.registers[0] = 10;
    m.registers[1] = 20;
    assert_eq!(m.cycle(), Ok(()));
    assert_eq!(m.registers[0xF], 0);
    assert_eq!(m.registers[0], 246);
}

#[test]
fn sub_registers_without_borrow() {
    let mut m = arith_machine(0x80, 0x15);
    m.registers[0] = 20;
    m.registers[1] = 10;
    assert_eq!(m.cycle(), Ok(()));
    assert_eq!(m.registers[0xF], 1);
    assert_eq!(m.registers[0], 10);
}

#[test]
fn sub_equal_registers_clears_flag() {
    // the no-borrow flag demands strictly greater
    let mut m = arith_machine(0x80, 0x15);
    m.registers[0] = 20;
    m.registers[1] = 20;
    assert_eq!(m.cycle(), Ok(()));
    assert_eq!(m.registers[0xF], 0);
    assert_eq!(m.registers[0], 0);
}

#[test]
fn subn_registers() {
    let mut m = arith_machine(0x80, 0x17);
    m.registers[0] = 20;
    m.registers[1] = 10;
    assert_eq!(m.cycle(), Ok(()));
    assert_eq!(m.registers[0xF], 0);
    assert_eq!(m.registers[0], 246);

    let mut m = arith_machine(0x80, 0x17);
    m.registers[0] = 10;
    m.registers[1] = 20;
    assert_eq!(m.cycle(), Ok(()));
    assert_eq!(m.registers[0xF], 1);
    assert_eq!(m.registers[0], 10);
}

#[test]
fn shr_records_low_bit() {
    let mut m = arith_machine(0x82, 0x06);
    m.registers[2] = 0b101;
    assert_eq!(m.cycle(), Ok(()));
    assert_eq!(m.registers[0xF], 1);
    assert_eq!(m.registers[2], 0b10);

    let mut m = arith_machine(0x82, 0x06);
    m.registers[2] = 0b100;
    assert_eq!(m.cycle(), Ok(()));
    assert_eq!(m.registers[0xF], 0);
    assert_eq!(m.registers[2], 0b10);
}

#[test]
fn shl_records_high_bit_and_wraps() {
    let mut m = arith_machine(0x82, 0x0E);
    m.registers[2] = 0x81;
    assert_eq!(m.cycle(), Ok(()));
    assert_eq!(m.registers[0xF], 1);
    assert_eq!(m.registers[2], 0x02);

    let mut m = arith_machine(0x82, 0x0E);
    m.registers[2] = 0x41;
    assert_eq!(m.cycle(), Ok(()));
    assert_eq!(m.registers[0xF], 0);
    assert_eq!(m.registers[2], 0x82);
}

#[test]
fn rnd_masks_with_immediate() {
    // AND with 0x00 pins the result whatever byte the generator drew
    let mut m = arith_machine(0xC4, 0x00);
    m.registers[4] = 0xFF;
    assert_eq!(m.cycle(), Ok(()));
    assert_eq!(m.registers[4], 0);
    assert_eq!(m.program_counter, 0x202);
}

#[test]
fn rnd_is_reproducible_from_equal_seeds() {
    let mut a = arith_machine(0xC4, 0xFF);
    let mut b = arith_machine(0xC4, 0xFF);
    a.rng = 12345;
    b.rng = 12345;
    assert_eq!(a.cycle(), Ok(()));
    assert_eq!(b.cycle(), Ok(()));
    assert_eq!(a.registers[4], b.registers[4]);
    assert_eq!(a.rng, b.rng);
    // the generator moved, so a second draw is independent of the seed value
    assert_ne!(a.rng, 12345);
}
