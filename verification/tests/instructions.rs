//! Per-instruction behavior: arithmetic, shifts, jumps, memory and drawing.

use chip8_lib::Processor;

fn boot(prog: &[u8]) -> Processor {
    let mut p = Processor::new();
    p.load_rom(prog);
    p
}

fn run(prog: &[u8], steps: usize) -> Processor {
    let mut p = boot(prog);
    for _ in 0..steps {
        assert_eq!(p.tick(), Ok(()));
    }
    p
}

#[test]
fn jump_sets_program_counter() {
    let p = run(&[0x12, 0x34], 1);
    assert_eq!(p.program_counter(), 0x234);
}

#[test]
fn jump_with_offset_adds_register_zero() {
    let p = run(&[0x60, 0x04, 0xB2, 0x06], 2);
    assert_eq!(p.program_counter(), 0x20A);
}

#[test]
fn skip_if_equal_immediate() {
    let p = run(&[0x60, 0x07, 0x30, 0x07], 2);
    assert_eq!(p.program_counter(), 0x206);
    let q = run(&[0x60, 0x07, 0x30, 0x08], 2);
    assert_eq!(q.program_counter(), 0x204);
}

#[test]
fn skip_if_not_equal_immediate() {
    let p = run(&[0x60, 0x07, 0x40, 0x07], 2);
    assert_eq!(p.program_counter(), 0x204);
    let q = run(&[0x60, 0x07, 0x40, 0x08], 2);
    assert_eq!(q.program_counter(), 0x206);
}

#[test]
fn skip_if_registers_equal_or_not() {
    let p = run(&[0x60, 0x07, 0x61, 0x07, 0x50, 0x10], 3);
    assert_eq!(p.program_counter(), 0x208);
    let q = run(&[0x60, 0x07, 0x61, 0x07, 0x90, 0x10], 3);
    assert_eq!(q.program_counter(), 0x206);
    let r = run(&[0x60, 0x07, 0x61, 0x08, 0x90, 0x10], 3);
    assert_eq!(r.program_counter(), 0x208);
}

#[test]
fn add_immediate_wraps_without_touching_flag() {
    let p = run(&[0x60, 0xFF, 0x70, 0x03], 2);
    assert_eq!(p.register(0), 2);
    assert_eq!(p.register(15), 0, "7xNN leaves the flag register alone");
}

#[test]
fn alu_copy_or_and_xor() {
    let p = run(&[0x60, 0x0C, 0x61, 0x0A, 0x80, 0x10], 3);
    assert_eq!(p.register(0), 0x0A);
    let q = run(&[0x60, 0x0C, 0x61, 0x0A, 0x80, 0x11], 3);
    assert_eq!(q.register(0), 0x0E);
    let r = run(&[0x60, 0x0C, 0x61, 0x0A, 0x80, 0x12], 3);
    assert_eq!(r.register(0), 0x08);
    let s = run(&[0x60, 0x0C, 0x61, 0x0A, 0x80, 0x13], 3);
    assert_eq!(s.register(0), 0x06);
}

#[test]
fn alu_add_sets_carry_flag() {
    let p = run(&[0x60, 0xFF, 0x61, 0x02, 0x80, 0x14], 3);
    assert_eq!(p.register(0), 0x01);
    assert_eq!(p.register(15), 1);
    let q = run(&[0x60, 0x0A, 0x61, 0x14, 0x80, 0x14], 3);
    assert_eq!(q.register(0), 0x1E);
    assert_eq!(q.register(15), 0);
}

#[test]
fn alu_sub_flag_is_one_without_borrow() {
    let p = run(&[0x60, 0x07, 0x61, 0x05, 0x80, 0x15], 3);
    assert_eq!(p.register(0), 0x02);
    assert_eq!(p.register(15), 1);
    let q = run(&[0x60, 0x05, 0x61, 0x07, 0x80, 0x15], 3);
    assert_eq!(q.register(0), 0xFE);
    assert_eq!(q.register(15), 0);
}

#[test]
fn alu_reverse_sub_flag_is_one_without_borrow() {
    let p = run(&[0x60, 0x05, 0x61, 0x07, 0x80, 0x17], 3);
    assert_eq!(p.register(0), 0x02);
    assert_eq!(p.register(15), 1);
    let q = run(&[0x60, 0x07, 0x61, 0x05, 0x80, 0x17], 3);
    assert_eq!(q.register(0), 0xFE);
    assert_eq!(q.register(15), 0);
}

#[test]
fn shift_right_keeps_low_bit_in_flag() {
    let p = run(&[0x60, 0x07, 0x80, 0x06], 2);
    assert_eq!(p.register(0), 0x03);
    assert_eq!(p.register(15), 1);
    let q = run(&[0x60, 0x06, 0x80, 0x06], 2);
    assert_eq!(q.register(0), 0x03);
    assert_eq!(q.register(15), 0);
}

#[test]
fn shift_left_keeps_high_bit_in_flag() {
    let p = run(&[0x60, 0x81, 0x80, 0x0E], 2);
    assert_eq!(p.register(0), 0x02);
    assert_eq!(p.register(15), 1);
    let q = run(&[0x60, 0x41, 0x80, 0x0E], 2);
    assert_eq!(q.register(0), 0x82);
    assert_eq!(q.register(15), 0);
}

#[test]
fn shift_right_on_the_flag_register_shifts_the_saved_bit() {
    // with X = 15 the flag write lands first, then the shift runs on it
    let p = run(&[0x6F, 0x07, 0x8F, 0x06], 2);
    assert_eq!(p.register(15), 0);
}

#[test]
fn add_into_the_flag_register_keeps_the_carry_not_the_sum() {
    let p = run(&[0x6F, 0x05, 0x60, 0x03, 0x8F, 0x04], 3);
    assert_eq!(p.register(15), 0, "the carry result overwrites the sum in register 15");
    let q = run(&[0x6F, 0xFF, 0x60, 0x02, 0x8F, 0x04], 3);
    assert_eq!(q.register(15), 1);
}

#[test]
fn set_index_register() {
    let p = run(&[0xA1, 0x23], 1);
    assert_eq!(p.index_register(), 0x123);
}

#[test]
fn add_register_to_index() {
    let p = run(&[0x60, 0x10, 0xA0, 0xFF, 0xF0, 0x1E], 3);
    assert_eq!(p.index_register(), 0x10F);
}

#[test]
fn add_register_to_index_wraps_at_sixteen_bits() {
    // I := 0xFFF, then add 255 to it 254 times through a jump loop
    let mut p = boot(&[0xAF, 0xFF, 0x60, 0xFF, 0xF0, 0x1E, 0x12, 0x04]);
    assert_eq!(p.tick(), Ok(()));
    assert_eq!(p.tick(), Ok(()));
    for _ in 0..254 {
        assert_eq!(p.tick(), Ok(()));
        assert_eq!(p.tick(), Ok(()));
    }
    // 0xFFF + 254 * 255 = 68865, which wraps to 68865 - 65536 = 3329
    assert_eq!(p.index_register(), 3329);
}

#[test]
fn key_test_masks_register_to_a_key_index() {
    // register 0 holds 0xF5; only its low nibble selects the key
    let mut p = boot(&[0x60, 0xF5, 0xE0, 0x9E]);
    p.press_key(5, true);
    assert_eq!(p.tick(), Ok(()));
    assert_eq!(p.tick(), Ok(()));
    assert_eq!(p.program_counter(), 0x206);
}

#[test]
fn random_masked_with_zero_mask_is_zero() {
    let mut p = boot(&[0x60, 0x55, 0xC0, 0x00]);
    assert_eq!(p.tick(), Ok(()));
    assert_eq!(p.tick(), Ok(()));
    assert_eq!(p.register(0), 0, "any random byte masked by 0x00 is zero");
}

#[test]
fn random_with_pinned_byte_is_masked() {
    let mut p = boot(&[0xC0, 0xFF, 0xC1, 0x0F]);
    assert_eq!(p.step_with(0xAB), Ok(()));
    assert_eq!(p.register(0), 0xAB);
    assert_eq!(p.step_with(0xAB), Ok(()));
    assert_eq!(p.register(1), 0x0B);
}

#[test]
fn font_address_points_at_glyph() {
    let p = run(&[0x60, 0x0A, 0xF0, 0x29], 2);
    assert_eq!(p.index_register(), 50);
    let expected = [0xF0, 0x90, 0xF0, 0x90, 0x90];
    for (i, b) in expected.iter().enumerate() {
        assert_eq!(p.memory_byte(50 + i), *b);
    }
}

#[test]
fn bcd_stores_decimal_digits() {
    // register 0 = 157 -> digits 1, 5, 7
    let p = run(&[0x60, 0x9D, 0xA3, 0x00, 0xF0, 0x33], 3);
    assert_eq!(p.memory_byte(0x300), 1);
    assert_eq!(p.memory_byte(0x301), 5);
    assert_eq!(p.memory_byte(0x302), 7);
    let q = run(&[0x60, 0x07, 0xA3, 0x00, 0xF0, 0x33], 3);
    assert_eq!(q.memory_byte(0x300), 0);
    assert_eq!(q.memory_byte(0x301), 0);
    assert_eq!(q.memory_byte(0x302), 7);
}

#[test]
fn register_dump_writes_memory_and_keeps_index() {
    let p = run(&[0x60, 0x0B, 0x61, 0x16, 0xA3, 0x00, 0xF1, 0x55], 4);
    assert_eq!(p.memory_byte(0x300), 0x0B);
    assert_eq!(p.memory_byte(0x301), 0x16);
    assert_eq!(p.memory_byte(0x302), 0x00);
    assert_eq!(p.index_register(), 0x300);
}

#[test]
fn register_load_reads_memory_and_keeps_index() {
    let p = run(&[0xA2, 0x06, 0xF1, 0x65, 0x00, 0x00, 0x07, 0x15], 2);
    assert_eq!(p.register(0), 0x07);
    assert_eq!(p.register(1), 0x15);
    assert_eq!(p.index_register(), 0x206);
}

#[test]
fn set_delay_and_sound_timers_from_register() {
    let p = run(&[0x60, 0x2A, 0xF0, 0x15, 0xF0, 0x18], 3);
    assert_eq!(p.delay_timer_value(), 0x2A);
    assert_eq!(p.sound_timer_value(), 0x2A);
}

#[test]
fn draw_glyph_sets_pixels_and_reports_no_collision() {
    // glyph 0, top row 0xF0: pixels (0,0)..(3,0) on, (4,0) off
    let p = run(&[0x60, 0x00, 0xF0, 0x29, 0xD0, 0x05], 3);
    let display = p.get_display();
    assert!(display[0] && display[1] && display[2] && display[3]);
    assert!(!display[4]);
    assert!(display[1 + 64] == false && display[0 + 64], "second row 0x90 lights only edges");
    assert_eq!(p.register(15), 0);
    assert_eq!(p.index_register(), 0, "drawing leaves the index register alone");
}

#[test]
fn draw_twice_restores_screen_and_reports_collision() {
    let mut p = run(&[0x60, 0x00, 0xF0, 0x29, 0xD0, 0x05, 0xD0, 0x05], 3);
    assert!(p.get_display().iter().any(|px| *px));
    assert_eq!(p.register(15), 0);
    assert_eq!(p.tick(), Ok(()));
    assert!(p.get_display().iter().all(|px| !*px));
    assert_eq!(p.register(15), 1, "the second draw un-sets pixels the first set");
}

#[test]
fn draw_wraps_around_screen_edges() {
    // draw one row of glyph 0 (0xF0) at x = 62: columns 62, 63, 0, 1
    let p = run(&[0x60, 0x3E, 0x61, 0x00, 0xA0, 0x00, 0xD0, 0x11], 4);
    let display = p.get_display();
    assert!(display[62] && display[63] && display[0] && display[1]);
    assert!(!display[2] && !display[61]);
}

#[test]
fn draw_zero_rows_changes_nothing() {
    let p = run(&[0x60, 0x00, 0xD0, 0x00], 2);
    assert!(p.get_display().iter().all(|px| !*px));
    assert_eq!(p.register(15), 0);
}
