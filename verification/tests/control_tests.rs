use chip8::machine::Chip8;
use chip8::machine::Fault;

fn ctrl_machine(hi: u8, lo: u8) -> Chip8 {
    let mut m = Chip8::new();
    m.memory[0x200] = hi;
    m.memory[0x201] = lo;
    m
}

#[test]
fn cls_clears_framebuffer_and_advances() {
    let mut m = ctrl_machine(0x00, 0xE0);
    for p in m.framebuffer.iter_mut() {
        *p = 1;
    }
    assert_eq!(m.cycle(), Ok(()));
    assert!(m.framebuffer.iter().all(|&p| p == 0));
    assert_eq!(m.program_counter, 0x202);
}

#[test]
fn jp_sets_program_counter() {
    let mut m = ctrl_machine(0x1A, 0xBC);
    assert_eq!(m.cycle(), Ok(()));
    assert_eq!(m.program_counter, 0xABC);
}

#[test]
fn call_then_ret_resumes_after_call() {
    let mut m = ctrl_machine(0x23, 0x00);
    m.memory[0x300] = 0x00;
    m.memory[0x301] = 0xEE;
    assert_eq!(m.cycle(), Ok(()));
    // the pushed value is the address of the CALL itself
    assert_eq!(m.program_counter, 0x300);
    assert_eq!(m.stack_pointer, 1);
    assert_eq!(m.stack[0], 0x200);
    assert_eq!(m.cycle(), Ok(()));
    assert_eq!(m.program_counter, 0x202);
    assert_eq!(m.stack_pointer, 0);
}

#[test]
fn call_on_full_stack_overflows() {
    let mut m = ctrl_machine(0x23, 0x00);
    m.stack_pointer = 16;
    assert_eq!(m.cycle(), Err(Fault::StackOverflow));
    assert_eq!(m.program_counter, 0x200);
    assert_eq!(m.stack_pointer, 16);
}

#[test]
fn ret_on_empty_stack_underflows() {
    let mut m = ctrl_machine(0x00, 0xEE);
    assert_eq!(m.cycle(), Err(Fault::StackUnderflow));
    assert_eq!(m.program_counter, 0x200);
}

#[test]
fn se_immediate_skips_on_match() {
    let mut m = ctrl_machine(0x30, 0x42);
    m.registers[0] = 0x42;
    assert_eq!(m.cycle(), Ok(()));
    assert_eq!(m.program_counter, 0x204);

    let mut m = ctrl_machine(0x30, 0x42);
    m.registers[0] = 0x41;
    assert_eq!(m.cycle(), Ok(()));
    assert_eq!(m.program_counter, 0x202);
}

#[test]
fn sne_immediate_skips_on_mismatch() {
    let mut m = ctrl_machine(0x40, 0x42);
    m.registers[0] = 0x41;
    assert_eq!(m.cycle(), Ok(()));
    assert_eq!(m.program_counter, 0x204);

    let mut m = ctrl_machine(0x40, 0x42);
    m.registers[0] = 0x42;
    assert_eq!(m.cycle(), Ok(()));
    assert_eq!(m.program_counter, 0x202);
}

#[test]
fn se_registers_skips_on_equal() {
    let mut m = ctrl_machine(0x50, 0x10);
    m.registers[0] = 7;
    m.registers[1] = 7;
    assert_eq!(m.cycle(), Ok(()));
    assert_eq!(m.program_counter, 0x204);

    let mut m = ctrl_machine(0x50, 0x10);
    m.registers[0] = 7;
    m.registers[1] = 8;
    assert_eq!(m.cycle(), Ok(()));
    assert_eq!(m.program_counter, 0x202);
}

#[test]
fn sne_registers_skips_on_different() {
    let mut m = ctrl_machine(0x90, 0x10);
    m.registers[0] = 7;
    m.registers[1] = 8;
    assert_eq!(m.cycle(), Ok(()));
    assert_eq!(m.program_counter, 0x204);

    let mut m = ctrl_machine(0x90, 0x10);
    m.registers[0] = 7;
    m.registers[1] = 7;
    assert_eq!(m.cycle(), Ok(()));
    assert_eq!(m.program_counter, 0x202);
}

#[test]
fn jp_v0_adds_offset() {
    let mut m = ctrl_machine(0xB3, 0x00);
    m.registers[0] = 5;
    assert_eq!(m.cycle(), Ok(()));
    assert_eq!(m.program_counter, 0x305);
}

#[test]
fn skp_skips_when_key_down() {
    let mut m = ctrl_machine(0xE3, 0x9E);
    m.registers[3] = 0xA;
    m.keys[0xA] = true;
    assert_eq!(m.cycle(), Ok(()));
    assert_eq!(m.program_counter, 0x204);

    let mut m = ctrl_machine(0xE3, 0x9E);
    m.registers[3] = 0xA;
    assert_eq!(m.cycle(), Ok(()));
    assert_eq!(m.program_counter, 0x202);
}

#[test]
fn sknp_skips_when_key_up() {
    let mut m = ctrl_machine(0xE3, 0xA1);
    m.registers[3] = 0xA;
    assert_eq!(m.cycle(), Ok(()));
    assert_eq!(m.program_counter, 0x204);

    let mut m = ctrl_machine(0xE3, 0xA1);
    m.registers[3] = 0xA;
    m.keys[0xA] = true;
    assert_eq!(m.cycle(), Ok(()));
    assert_eq!(m.program_counter, 0x202);
}

#[test]
fn key_test_with_register_out_of_keypad_range_faults() {
    let mut m = ctrl_machine(0xE3, 0x9E);
    m.registers[3] = 200;
    assert_eq!(m.cycle(), Err(Fault::MemoryOutOfBounds));
    assert_eq!(m.program_counter, 0x200);
}
