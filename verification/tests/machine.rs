//! Lifecycle, loading, input and the end-to-end scenarios.

use chip8_lib::{Fault, Processor};

fn boot(prog: &[u8]) -> Processor {
    let mut p = Processor::new();
    p.load_rom(prog);
    p
}

#[test]
fn fresh_machine_state() {
    let p = Processor::new();
    assert_eq!(p.program_counter(), 0x200);
    assert_eq!(p.index_register(), 0);
    assert_eq!(p.stack_depth(), 0);
    assert_eq!(p.delay_timer_value(), 0);
    assert_eq!(p.sound_timer_value(), 0);
    for i in 0..16 {
        assert_eq!(p.register(i), 0);
    }
    let display = p.get_display();
    assert_eq!(display.len(), 64 * 32);
    assert!(display.iter().all(|px| !*px));
}

#[test]
fn fresh_machine_holds_font() {
    let p = Processor::new();
    // glyph for 0 starts at address 0, glyph for F ends at address 79
    assert_eq!(p.memory_byte(0), 0xF0);
    assert_eq!(p.memory_byte(4), 0xF0);
    assert_eq!(p.memory_byte(79), 0x80);
    assert_eq!(p.memory_byte(80), 0x00);
}

#[test]
fn load_rom_places_program_at_entry() {
    let p = boot(&[0xAB, 0xCD, 0xEF]);
    assert_eq!(p.memory_byte(0x200), 0xAB);
    assert_eq!(p.memory_byte(0x201), 0xCD);
    assert_eq!(p.memory_byte(0x202), 0xEF);
    assert_eq!(p.memory_byte(0x203), 0x00);
}

#[test]
fn load_rom_accepts_largest_image() {
    let mut image = vec![0u8; 4096 - 0x200];
    image[0] = 0x11;
    let n = image.len();
    image[n - 1] = 0x99;
    let p = boot(&image);
    assert_eq!(p.memory_byte(0x200), 0x11);
    assert_eq!(p.memory_byte(4095), 0x99);
}

#[test]
fn reset_restores_fresh_state() {
    let mut p = boot(&[0x60, 0x2A, 0xA1, 0x23]);
    assert_eq!(p.tick(), Ok(()));
    assert_eq!(p.tick(), Ok(()));
    assert_eq!(p.register(0), 0x2A);
    p.reset();
    assert_eq!(p.program_counter(), 0x200);
    assert_eq!(p.register(0), 0);
    assert_eq!(p.index_register(), 0);
    assert_eq!(p.memory_byte(0x200), 0, "reset clears the loaded program");
    assert_eq!(p.memory_byte(0), 0xF0, "reset restores the font");
}

#[test]
fn set_and_add_immediate_scenario() {
    // 6005: register 0 := 5; 7003: register 0 += 3
    let mut p = boot(&[0x60, 0x05, 0x70, 0x03]);
    assert_eq!(p.tick(), Ok(()));
    assert_eq!(p.register(0), 5);
    assert_eq!(p.tick(), Ok(()));
    assert_eq!(p.register(0), 8);
    assert_eq!(p.program_counter(), 0x204);
}

#[test]
fn clear_display_scenario() {
    // draw a glyph, then 00E0 must leave every pixel false
    let mut p = boot(&[0x60, 0x00, 0xF0, 0x29, 0xD0, 0x05, 0x00, 0xE0]);
    assert_eq!(p.tick(), Ok(()));
    assert_eq!(p.tick(), Ok(()));
    assert_eq!(p.tick(), Ok(()));
    assert!(p.get_display().iter().any(|px| *px), "the draw lit some pixel");
    assert_eq!(p.tick(), Ok(()));
    assert!(p.get_display().iter().all(|px| !*px));
}

#[test]
fn skip_if_key_pressed_scenario() {
    // key 5 pressed, register 0 = 5: E09E skips the next instruction
    let mut p = boot(&[0x60, 0x05, 0xE0, 0x9E]);
    p.press_key(5, true);
    assert_eq!(p.tick(), Ok(()));
    assert_eq!(p.tick(), Ok(()));
    assert_eq!(p.program_counter(), 0x206);
}

#[test]
fn skip_if_key_pressed_does_not_skip_when_released() {
    let mut p = boot(&[0x60, 0x05, 0xE0, 0x9E]);
    p.press_key(5, true);
    p.press_key(5, false);
    assert_eq!(p.tick(), Ok(()));
    assert_eq!(p.tick(), Ok(()));
    assert_eq!(p.program_counter(), 0x204);
}

#[test]
fn skip_if_key_not_pressed_scenario() {
    let mut p = boot(&[0x60, 0x05, 0xE0, 0xA1]);
    assert_eq!(p.tick(), Ok(()));
    assert_eq!(p.tick(), Ok(()));
    assert_eq!(p.program_counter(), 0x206);

    let mut q = boot(&[0x60, 0x05, 0xE0, 0xA1]);
    q.press_key(5, true);
    assert_eq!(q.tick(), Ok(()));
    assert_eq!(q.tick(), Ok(()));
    assert_eq!(q.program_counter(), 0x204);
}

#[test]
fn wait_for_key_blocks_without_net_advance() {
    let mut p = boot(&[0xF0, 0x0A]);
    assert_eq!(p.tick(), Ok(()));
    assert_eq!(p.program_counter(), 0x200);
    assert_eq!(p.tick(), Ok(()));
    assert_eq!(p.program_counter(), 0x200);
}

#[test]
fn wait_for_key_stores_first_pressed_key() {
    let mut p = boot(&[0xF0, 0x0A]);
    assert_eq!(p.tick(), Ok(()));
    p.press_key(9, true);
    p.press_key(3, true);
    assert_eq!(p.tick(), Ok(()));
    assert_eq!(p.register(0), 3, "the lowest-numbered pressed key wins");
    assert_eq!(p.program_counter(), 0x202);
}

#[test]
fn stack_discipline_scenario() {
    // 2204: call 0x204; at 0x204: 00EE return
    let mut p = boot(&[0x22, 0x04, 0x00, 0x00, 0x00, 0xEE]);
    assert_eq!(p.stack_depth(), 0);
    assert_eq!(p.tick(), Ok(()));
    assert_eq!(p.program_counter(), 0x204);
    assert_eq!(p.stack_depth(), 1);
    assert_eq!(p.tick(), Ok(()));
    assert_eq!(p.program_counter(), 0x202);
    assert_eq!(p.stack_depth(), 0);
}

#[test]
fn timers_count_down_to_zero_and_stop() {
    // delay := 3, sound := 2
    let mut p = boot(&[0x60, 0x03, 0xF0, 0x15, 0x60, 0x02, 0xF0, 0x18]);
    for _ in 0..4 {
        assert_eq!(p.tick(), Ok(()));
    }
    assert_eq!(p.delay_timer_value(), 3);
    assert_eq!(p.sound_timer_value(), 2);
    p.timer_tick();
    assert_eq!(p.delay_timer_value(), 2);
    assert_eq!(p.sound_timer_value(), 1);
    p.timer_tick();
    p.timer_tick();
    assert_eq!(p.delay_timer_value(), 0);
    assert_eq!(p.sound_timer_value(), 0);
    p.timer_tick();
    assert_eq!(p.delay_timer_value(), 0);
    assert_eq!(p.sound_timer_value(), 0);
}

#[test]
fn read_delay_timer_into_register() {
    let mut p = boot(&[0x60, 0x05, 0xF0, 0x15, 0xF1, 0x07]);
    assert_eq!(p.tick(), Ok(()));
    assert_eq!(p.tick(), Ok(()));
    p.timer_tick();
    assert_eq!(p.tick(), Ok(()));
    assert_eq!(p.register(1), 4);
}

#[test]
fn faulting_tick_leaves_machine_unchanged() {
    let mut p = boot(&[0xF0, 0x0F]);
    let r = p.tick();
    assert_eq!(r, Err(Fault::UnknownOpcode { pc: 0x200, op: 0xF00F }));
    assert_eq!(p.program_counter(), 0x200, "a faulting step does not move the machine");
}
