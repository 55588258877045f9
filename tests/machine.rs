use chip8::{apply_key_event, key2btn, Chip8, KeyEvent, LoadError, TickError};

fn machine_with(program: &[u8]) -> Chip8 {
    let mut m = Chip8::new();
    m.load(program).unwrap();
    m
}

fn run(m: &mut Chip8, ticks: usize) {
    for _ in 0..ticks {
        m.tick().unwrap();
    }
}

#[test]
fn new_machine_is_zeroed() {
    let m = Chip8::new();
    assert_eq!(m.pc(), 0x200);
    assert_eq!(m.sp(), 0);
    assert_eq!(m.index(), 0);
    for x in 0..16 {
        assert_eq!(m.register(x), 0);
    }
    assert!(m.gfx.iter().all(|&c| c == 0));
    assert!(m.key.iter().all(|&k| !k));
    assert!(!m.draw_flag);
    assert!(!m.beep_flag);
    assert_eq!(m.delay_timer(), 0);
    assert_eq!(m.sound_timer(), 0);
}

#[test]
fn load_places_font_and_program() {
    let m = machine_with(&[0x12, 0x34, 0x56]);
    assert_eq!(m.memory_at(0), 0xF0);
    assert_eq!(m.memory_at(5), 0x20);
    assert_eq!(m.memory_at(79), 0x80);
    assert_eq!(m.memory_at(80), 0);
    assert_eq!(m.memory_at(0x200), 0x12);
    assert_eq!(m.memory_at(0x201), 0x34);
    assert_eq!(m.memory_at(0x202), 0x56);
    assert_eq!(m.memory_at(0x203), 0);
}

#[test]
fn load_accepts_largest_program() {
    let mut m = Chip8::new();
    let program = vec![0xAB; 3584];
    assert_eq!(m.load(&program), Ok(()));
    assert_eq!(m.memory_at(4095), 0xAB);
}

#[test]
fn load_rejects_oversized_program() {
    let mut m = Chip8::new();
    let program = vec![0xAB; 3585];
    assert_eq!(m.load(&program), Err(LoadError::RomTooLarge));
    assert_eq!(m.memory_at(0), 0);
    assert_eq!(m.memory_at(0x200), 0);
}

#[test]
fn add_with_carry() {
    let mut m = machine_with(&[0x60, 0xFF, 0x61, 0x01, 0x80, 0x14]);
    run(&mut m, 2);
    assert_eq!(m.register(0), 0xFF);
    assert_eq!(m.register(1), 0x01);
    run(&mut m, 1);
    assert_eq!(m.register(0), 0x00);
    assert_eq!(m.register(0xF), 1);
}

#[test]
fn add_without_carry() {
    let mut m = machine_with(&[0x60, 0x10, 0x61, 0x01, 0x6F, 0x07, 0x80, 0x14]);
    run(&mut m, 4);
    assert_eq!(m.register(0), 0x11);
    assert_eq!(m.register(0xF), 0);
}

#[test]
fn sub_no_borrow() {
    let mut m = machine_with(&[0x60, 0x05, 0x61, 0x03, 0x80, 0x15]);
    run(&mut m, 3);
    assert_eq!(m.register(0), 0x02);
    assert_eq!(m.register(0xF), 1);
}

#[test]
fn sub_with_borrow() {
    let mut m = machine_with(&[0x60, 0x03, 0x61, 0x05, 0x80, 0x15]);
    run(&mut m, 3);
    assert_eq!(m.register(0), 0xFE);
    assert_eq!(m.register(0xF), 0);
}

#[test]
fn subn_and_shifts() {
    // V0 = 3, V1 = 5, V0 = V1 - V0 = 2 with VF = 1
    let mut m = machine_with(&[0x60, 0x03, 0x61, 0x05, 0x80, 0x17, 0x62, 0x81, 0x82, 0x06, 0x63, 0x81, 0x83, 0x0E]);
    run(&mut m, 3);
    assert_eq!(m.register(0), 2);
    assert_eq!(m.register(0xF), 1);
    // V2 = 0x81 >> 1 = 0x40, VF = 1
    run(&mut m, 2);
    assert_eq!(m.register(2), 0x40);
    assert_eq!(m.register(0xF), 1);
    // V3 = 0x81 << 1 = 0x02, VF = 1
    run(&mut m, 2);
    assert_eq!(m.register(3), 0x02);
    assert_eq!(m.register(0xF), 1);
}

#[test]
fn logic_ops() {
    let mut m = machine_with(&[
        0x60, 0x0C, 0x61, 0x0A, 0x62, 0x0C, 0x63, 0x0C, 0x80, 0x11, 0x82, 0x12, 0x83, 0x13, 0x84, 0x10,
    ]);
    run(&mut m, 8);
    assert_eq!(m.register(0), 0x0E);
    assert_eq!(m.register(2), 0x08);
    assert_eq!(m.register(3), 0x06);
    assert_eq!(m.register(4), 0x0A);
}

#[test]
fn add_immediate_wraps_and_keeps_flag() {
    let mut m = machine_with(&[0x6F, 0x05, 0x60, 0xF0, 0x70, 0x20]);
    run(&mut m, 3);
    assert_eq!(m.register(0), 0x10);
    assert_eq!(m.register(0xF), 0x05);
}

#[test]
fn skip_equal() {
    let mut m = machine_with(&[0x60, 0x2A, 0x30, 0x2A, 0x60, 0x00]);
    // the skip is taken: the second tick lands past `60 00`
    run(&mut m, 2);
    assert_eq!(m.register(0), 0x2A);
    assert_eq!(m.pc(), 0x206);
    // the third tick runs the zero word at 0x206, a no-op
    run(&mut m, 1);
    assert_eq!(m.register(0), 0x2A);
    assert_eq!(m.pc(), 0x208);
}

#[test]
fn skip_not_equal_and_register_compares() {
    // 4xkk not taken, 5xy0 taken, 9xy0 not taken
    let mut m = machine_with(&[0x60, 0x07, 0x40, 0x07, 0x61, 0x07, 0x50, 0x10, 0x00, 0x00, 0x90, 0x10]);
    run(&mut m, 4);
    assert_eq!(m.pc(), 0x20A);
    run(&mut m, 1);
    assert_eq!(m.pc(), 0x20C);
}

#[test]
fn draw_and_collision() {
    // I = 0, V0 = 0, V1 = 0, V2 = 5, then D015 twice
    let mut m = machine_with(&[0xA0, 0x00, 0x60, 0x00, 0x61, 0x00, 0x62, 0x05, 0xD0, 0x15, 0xD0, 0x15]);
    run(&mut m, 5);
    assert_eq!(m.register(0xF), 0);
    assert!(m.draw_flag);
    let glyph = [0xF0u8, 0x90, 0x90, 0x90, 0xF0];
    for row in 0..32 {
        for col in 0..64 {
            let expected = if row < 5 && col < 8 { (glyph[row] >> (7 - col)) & 1 } else { 0 };
            assert_eq!(m.gfx[row * 64 + col], expected, "pixel ({}, {})", col, row);
        }
    }
    run(&mut m, 1);
    assert_eq!(m.register(0xF), 1);
    assert!(m.gfx.iter().all(|&c| c == 0));
}

#[test]
fn draw_wraps_around_screen() {
    // V0 = 65, V1 = 34, I = 0: the glyph for 0 lands at column 1, row 2
    let mut m = machine_with(&[0xA0, 0x00, 0x60, 65, 0x61, 34, 0xD0, 0x15]);
    run(&mut m, 4);
    let glyph = [0xF0u8, 0x90, 0x90, 0x90, 0xF0];
    for row in 0..32 {
        for col in 0..64 {
            let expected = if (2..7).contains(&row) && (1..9).contains(&col) {
                (glyph[row - 2] >> (7 - (col - 1))) & 1
            } else {
                0
            };
            assert_eq!(m.gfx[row * 64 + col], expected, "pixel ({}, {})", col, row);
        }
    }
}

#[test]
fn draw_wraps_past_both_edges() {
    // V0 = 62, V1 = 30, I = 0: the glyph for 0 straddles the right and bottom edges
    let mut m = machine_with(&[0xA0, 0x00, 0x60, 62, 0x61, 30, 0xD0, 0x15]);
    run(&mut m, 4);
    assert_eq!(m.gfx[30 * 64 + 62], 1);
    assert_eq!(m.gfx[30 * 64 + 63], 1);
    assert_eq!(m.gfx[30 * 64], 1);
    assert_eq!(m.gfx[30 * 64 + 1], 1);
    assert_eq!(m.gfx[31 * 64 + 62], 1);
    assert_eq!(m.gfx[31 * 64 + 1], 1);
    assert_eq!(m.gfx[31 * 64 + 63], 0);
    assert_eq!(m.gfx[2 * 64 + 62], 1);
    assert_eq!(m.gfx[2 * 64 + 1], 1);
    assert_eq!(m.gfx.iter().filter(|&&c| c == 1).count(), 14);
}

#[test]
fn draw_twice_restores_screen() {
    // Draw glyph 8 over glyph 0, then glyph 8 again
    let mut m = machine_with(&[0xA0, 0x00, 0xD0, 0x05, 0xA0, 0x28, 0xD0, 0x05, 0xD0, 0x05]);
    run(&mut m, 2);
    let first = m.gfx;
    run(&mut m, 2);
    let between = m.gfx;
    assert_eq!(m.register(0xF), 1);
    run(&mut m, 1);
    assert_eq!(m.gfx, first);
    // second draw of glyph 8 hits the pixels it lit, which were off in `first`
    let lit_again = (0..2048).any(|p| between[p] == 1 && first[p] == 0);
    assert_eq!(m.register(0xF), if lit_again { 1 } else { 0 });
}

#[test]
fn clear_screen_twice_is_once() {
    let mut m = machine_with(&[0xA0, 0x00, 0xD0, 0x05, 0x00, 0xE0, 0x00, 0xE0]);
    run(&mut m, 3);
    let once = m.gfx;
    assert!(once.iter().all(|&c| c == 0));
    run(&mut m, 1);
    assert_eq!(m.gfx, once);
}

#[test]
fn wait_for_key() {
    let mut m = machine_with(&[0xF0, 0x0A]);
    run(&mut m, 1);
    assert_eq!(m.pc(), 0x200);
    m.key[0x7] = true;
    run(&mut m, 1);
    assert_eq!(m.register(0), 0x07);
    assert_eq!(m.pc(), 0x202);
}

#[test]
fn wait_for_key_takes_lowest() {
    let mut m = machine_with(&[0xF3, 0x0A]);
    m.key[0xC] = true;
    m.key[0x4] = true;
    run(&mut m, 1);
    assert_eq!(m.register(3), 0x04);
}

#[test]
fn skip_on_key() {
    // V0 = 0x15 selects key 5; SKP taken, then SKNP not taken
    let mut m = machine_with(&[0x60, 0x15, 0xE0, 0x9E, 0x00, 0x00, 0xE0, 0xA1]);
    m.key[5] = true;
    run(&mut m, 2);
    assert_eq!(m.pc(), 0x206);
    run(&mut m, 1);
    assert_eq!(m.pc(), 0x208);
}

#[test]
fn bcd_digits() {
    let mut m = machine_with(&[0x60, 0xFE, 0xA3, 0x00, 0xF0, 0x33]);
    run(&mut m, 3);
    assert_eq!(m.memory_at(0x300), 2);
    assert_eq!(m.memory_at(0x301), 5);
    assert_eq!(m.memory_at(0x302), 4);
    assert_eq!(m.index(), 0x300);
}

#[test]
fn store_then_load_registers() {
    let mut m = machine_with(&[
        0x60, 0x11, 0x61, 0x22, 0x62, 0x33, 0xA3, 0x00, 0xF1, 0x55, 0x60, 0x00, 0x61, 0x00, 0x62, 0x00, 0xF1, 0x65,
    ]);
    run(&mut m, 5);
    assert_eq!(m.memory_at(0x300), 0x11);
    assert_eq!(m.memory_at(0x301), 0x22);
    assert_eq!(m.memory_at(0x302), 0x00);
    run(&mut m, 4);
    assert_eq!(m.register(0), 0x11);
    assert_eq!(m.register(1), 0x22);
    assert_eq!(m.register(2), 0x00);
    assert_eq!(m.index(), 0x300);
}

#[test]
fn call_and_return() {
    // 0x200: CALL 0x206; 0x202: JP 0x202; 0x204: NOP; 0x206: RET
    let mut m = machine_with(&[0x22, 0x06, 0x12, 0x02, 0x00, 0x00, 0x00, 0xEE]);
    run(&mut m, 1);
    assert_eq!(m.pc(), 0x206);
    assert_eq!(m.sp(), 1);
    run(&mut m, 1);
    assert_eq!(m.pc(), 0x202);
    assert_eq!(m.sp(), 0);
}

#[test]
fn return_on_empty_stack_fails() {
    let mut m = machine_with(&[0x00, 0xEE]);
    assert_eq!(m.tick(), Err(TickError::StackUnderflow));
    assert_eq!(m.pc(), 0x200);
    assert_eq!(m.sp(), 0);
}

#[test]
fn call_on_full_stack_fails() {
    let mut m = machine_with(&[0x22, 0x00]);
    run(&mut m, 16);
    assert_eq!(m.sp(), 16);
    assert_eq!(m.tick(), Err(TickError::StackOverflow));
    assert_eq!(m.sp(), 16);
    assert_eq!(m.pc(), 0x200);
}

#[test]
fn unknown_opcode_fails_and_leaves_machine() {
    let mut m = machine_with(&[0xFF, 0xFF]);
    assert_eq!(m.tick(), Err(TickError::UnknownOpcode(0xFFFF)));
    assert_eq!(m.pc(), 0x200);
    let mut m = machine_with(&[0x51, 0x21]);
    assert_eq!(m.tick(), Err(TickError::UnknownOpcode(0x5121)));
    let mut m = machine_with(&[0x80, 0x08]);
    assert_eq!(m.tick(), Err(TickError::UnknownOpcode(0x8008)));
    let mut m = machine_with(&[0x01, 0x23]);
    assert_eq!(m.tick(), Err(TickError::UnknownOpcode(0x0123)));
}

#[test]
fn jumps() {
    let mut m = machine_with(&[0x13, 0x00]);
    run(&mut m, 1);
    assert_eq!(m.pc(), 0x300);
    let mut m = machine_with(&[0x60, 0x04, 0xB3, 0x00]);
    run(&mut m, 2);
    assert_eq!(m.pc(), 0x304);
}

#[test]
fn random_byte_is_masked() {
    let mut m = machine_with(&[0xC0, 0x0F, 0xC1, 0x00]);
    assert_eq!(m.step(0xAB), Ok(()));
    assert_eq!(m.register(0), 0x0B);
    run(&mut m, 1);
    assert_eq!(m.register(1), 0);
}

#[test]
fn index_instructions() {
    // I = 0xFFF; V0 = 2; I += V0 wraps to 1; V1 = 0x1A; I = sprite of digit A
    let mut m = machine_with(&[0xAF, 0xFF, 0x60, 0x02, 0xF0, 0x1E, 0x61, 0x1A, 0xF1, 0x29]);
    run(&mut m, 3);
    assert_eq!(m.index(), 1);
    assert_eq!(m.register(0xF), 0);
    run(&mut m, 2);
    assert_eq!(m.index(), 50);
}

#[test]
fn timers_count_down() {
    // V0 = 3; DT = V0; V1 = DT
    let mut m = machine_with(&[0x60, 0x03, 0xF0, 0x15, 0xF1, 0x07, 0x00, 0x00, 0x00, 0x00, 0x00, 0x00]);
    run(&mut m, 2);
    assert_eq!(m.delay_timer(), 2);
    run(&mut m, 1);
    assert_eq!(m.register(1), 2);
    assert_eq!(m.delay_timer(), 1);
    run(&mut m, 2);
    assert_eq!(m.delay_timer(), 0);
}

#[test]
fn sound_timer_beeps_when_it_runs_out() {
    // V0 = 2; ST = V0; NOP; NOP
    let mut m = machine_with(&[0x60, 0x02, 0xF0, 0x18, 0x00, 0x00, 0x00, 0x00]);
    run(&mut m, 2);
    assert_eq!(m.sound_timer(), 1);
    assert!(!m.beep_flag);
    run(&mut m, 1);
    assert_eq!(m.sound_timer(), 0);
    assert!(m.beep_flag);
    m.beep_flag = false;
    run(&mut m, 1);
    assert!(!m.beep_flag);
}

#[test]
fn program_counter_wraps_at_end_of_memory() {
    let mut m = machine_with(&[0x1F, 0xFE]);
    run(&mut m, 1);
    assert_eq!(m.pc(), 0xFFE);
    run(&mut m, 1);
    assert_eq!(m.pc(), 0);
}

#[test]
fn keypad_layout() {
    let layout = [
        ('1', 0x1), ('2', 0x2), ('3', 0x3), ('4', 0xC),
        ('q', 0x4), ('w', 0x5), ('e', 0x6), ('r', 0xD),
        ('a', 0x7), ('s', 0x8), ('d', 0x9), ('f', 0xE),
        ('z', 0xA), ('x', 0x0), ('c', 0xB), ('v', 0xF),
    ];
    for (c, k) in layout {
        assert_eq!(key2btn(c), Some(k));
    }
    assert_eq!(key2btn('5'), None);
    assert_eq!(key2btn('Q'), None);
}

#[test]
fn key_events_update_latch() {
    let mut keys = [false; 16];
    assert!(!apply_key_event(&mut keys, KeyEvent::Down('w')));
    assert!(keys[5]);
    assert!(!apply_key_event(&mut keys, KeyEvent::Down('p')));
    assert_eq!(keys.iter().filter(|&&k| k).count(), 1);
    assert!(!apply_key_event(&mut keys, KeyEvent::Up('w')));
    assert!(!keys[5]);
    assert!(apply_key_event(&mut keys, KeyEvent::Quit));
    assert!(keys.iter().all(|&k| !k));
}

#[test]
fn invariants_hold_while_running() {
    // a loop that draws, calls a subroutine that sets registers, and returns
    let program = [
        0xA0, 0x00, // I = 0
        0x60, 0x3E, // V0 = 62
        0x61, 0x1E, // V1 = 30
        0xD0, 0x1F, // draw 15 rows
        0x22, 0x0E, // CALL 0x20E
        0x12, 0x06, // JP 0x206
        0x00, 0x00, // NOP
        0x70, 0x05, // V0 += 5
        0x81, 0x0E, // V1 <<= 1
        0x00, 0xEE, // RET
    ];
    let mut m = machine_with(&program);
    for _ in 0..200 {
        m.tick().unwrap();
        assert_eq!(m.pc() % 2, 0);
        assert!(m.pc() < 4096);
        assert!(m.sp() <= 16);
        assert!(m.gfx.iter().all(|&c| c <= 1));
        assert!(m.register(0xF) <= 1);
    }
}

#[test]
fn timers_tick_while_waiting_for_key() {
    // V0 = 3; DT = V0; wait for a key into V1
    let mut m = machine_with(&[0x60, 0x03, 0xF0, 0x15, 0xF1, 0x0A]);
    run(&mut m, 2);
    assert_eq!(m.delay_timer(), 2);
    run(&mut m, 2);
    assert_eq!(m.pc(), 0x204);
    assert_eq!(m.delay_timer(), 0);
}
