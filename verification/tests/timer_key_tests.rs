use chip8::machine::Chip8;

fn tk_machine(hi: u8, lo: u8) -> Chip8 {
    let mut m = Chip8::new();
    m.memory[0x200] = hi;
    m.memory[0x201] = lo;
    m
}

#[test]
fn timers_count_down_and_saturate() {
    // a jump back to itself, so every cycle only ticks the timers
    let mut m = tk_machine(0x12, 0x00);
    m.delay_timer = 5;
    m.sound_timer = 1;
    assert_eq!(m.cycle(), Ok(()));
    assert_eq!(m.delay_timer, 4);
    assert_eq!(m.sound_timer, 0);
    assert_eq!(m.cycle(), Ok(()));
    assert_eq!(m.delay_timer, 3);
    // the sound timer floors at zero, it never wraps
    assert_eq!(m.sound_timer, 0);
}

#[test]
fn ld_vx_from_delay_timer() {
    let mut m = tk_machine(0xF4, 0x07);
    m.delay_timer = 42;
    assert_eq!(m.cycle(), Ok(()));
    assert_eq!(m.registers[4], 42);
    // the read itself happened before the post-dispatch tick
    assert_eq!(m.delay_timer, 41);
}

#[test]
fn ld_delay_timer_from_vx() {
    let mut m = tk_machine(0xF4, 0x15);
    m.registers[4] = 10;
    assert_eq!(m.cycle(), Ok(()));
    // set to 10, then the post-dispatch step counts it down once
    assert_eq!(m.delay_timer, 9);
}

#[test]
fn ld_sound_timer_from_vx() {
    let mut m = tk_machine(0xF4, 0x18);
    m.registers[4] = 10;
    assert_eq!(m.cycle(), Ok(()));
    assert_eq!(m.sound_timer, 9);
}

#[test]
fn key_wait_freezes_then_releases() {
    let mut m = tk_machine(0xF3, 0x0A);
    m.delay_timer = 5;
    m.sound_timer = 5;
    // with every key up, repeated cycles leave the machine frozen
    for _ in 0..3 {
        assert_eq!(m.cycle(), Ok(()));
        assert_eq!(m.program_counter, 0x200);
        assert_eq!(m.delay_timer, 5);
        assert_eq!(m.sound_timer, 5);
        assert!(m.wait_for_keys);
        assert_eq!(m.registers[3], 0);
    }
    // one key down: the next cycle records it and moves on
    m.keys[7] = true;
    assert_eq!(m.cycle(), Ok(()));
    assert_eq!(m.registers[3], 7);
    assert_eq!(m.program_counter, 0x202);
    assert!(!m.wait_for_keys);
    // the transition cycle already runs the timers again
    assert_eq!(m.delay_timer, 4);
    assert_eq!(m.sound_timer, 4);
    // and the following cycle keeps counting down
    m.memory[0x202] = 0x12;
    m.memory[0x203] = 0x02;
    assert_eq!(m.cycle(), Ok(()));
    assert_eq!(m.delay_timer, 3);
}

#[test]
fn key_wait_takes_least_pressed_index() {
    let mut m = tk_machine(0xF0, 0x0A);
    m.keys[9] = true;
    m.keys[4] = true;
    assert_eq!(m.cycle(), Ok(()));
    assert_eq!(m.registers[0], 4);
}
