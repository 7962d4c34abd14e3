//! Every fault variant, each from a program that provokes it.

use chip8_lib::{Fault, Processor};

fn boot(prog: &[u8]) -> Processor {
    let mut p = Processor::new();
    p.load_rom(prog);
    p
}

#[test]
fn unknown_opcode_faults() {
    let mut p = boot(&[0xF0, 0x0F]);
    assert_eq!(p.tick(), Err(Fault::UnknownOpcode { pc: 0x200, op: 0xF00F }));
    let mut q = boot(&[0x50, 0x11]);
    assert_eq!(q.tick(), Err(Fault::UnknownOpcode { pc: 0x200, op: 0x5011 }));
    let mut r = boot(&[0x80, 0x18]);
    assert_eq!(r.tick(), Err(Fault::UnknownOpcode { pc: 0x200, op: 0x8018 }));
}

#[test]
fn program_counter_out_of_bounds_faults() {
    // jump to 0xFFF: the next fetch would need bytes 0xFFF and 0x1000
    let mut p = boot(&[0x1F, 0xFF]);
    assert_eq!(p.tick(), Ok(()));
    assert_eq!(p.program_counter(), 0xFFF);
    assert_eq!(p.tick(), Err(Fault::PcOutOfBounds { pc: 0xFFF }));
    assert_eq!(p.program_counter(), 0xFFF);
}

#[test]
fn return_with_empty_stack_faults() {
    let mut p = boot(&[0x00, 0xEE]);
    assert_eq!(p.tick(), Err(Fault::StackUnderflow { pc: 0x200 }));
    assert_eq!(p.stack_depth(), 0);
}

#[test]
fn seventeenth_nested_call_faults() {
    // 2200 at 0x200 calls itself forever
    let mut p = boot(&[0x22, 0x00]);
    for depth in 1..=16 {
        assert_eq!(p.tick(), Ok(()));
        assert_eq!(p.stack_depth(), depth);
    }
    assert_eq!(p.tick(), Err(Fault::StackOverflow { pc: 0x200 }));
    assert_eq!(p.stack_depth(), 16);
}

#[test]
fn bcd_beyond_memory_faults() {
    let mut p = boot(&[0xAF, 0xFE, 0xF0, 0x33]);
    assert_eq!(p.tick(), Ok(()));
    assert_eq!(p.tick(), Err(Fault::MemoryOutOfBounds { pc: 0x202 }));
}

#[test]
fn draw_beyond_memory_faults() {
    let mut p = boot(&[0xAF, 0xFF, 0xD0, 0x02]);
    assert_eq!(p.tick(), Ok(()));
    assert_eq!(p.tick(), Err(Fault::MemoryOutOfBounds { pc: 0x202 }));
}

#[test]
fn register_dump_beyond_memory_faults() {
    let mut p = boot(&[0xAF, 0xFF, 0xF1, 0x55]);
    assert_eq!(p.tick(), Ok(()));
    assert_eq!(p.tick(), Err(Fault::MemoryOutOfBounds { pc: 0x202 }));
}

#[test]
fn register_load_beyond_memory_faults() {
    let mut p = boot(&[0xAF, 0xFF, 0xF1, 0x65]);
    assert_eq!(p.tick(), Ok(()));
    assert_eq!(p.tick(), Err(Fault::MemoryOutOfBounds { pc: 0x202 }));
}

#[test]
fn fault_reports_the_offending_program_counter() {
    // the bad word sits after two good instructions
    let mut p = boot(&[0x60, 0x01, 0x61, 0x02, 0xF2, 0xFF]);
    assert_eq!(p.tick(), Ok(()));
    assert_eq!(p.tick(), Ok(()));
    assert_eq!(p.tick(), Err(Fault::UnknownOpcode { pc: 0x204, op: 0xF2FF }));
    assert_eq!(p.program_counter(), 0x204);
    assert_eq!(p.register(0), 1);
    assert_eq!(p.register(1), 2);
}
