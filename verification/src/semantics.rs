//! The instruction-step transition relation.
//!
//! [`step`] is the single source of truth for what one fetch/decode/execute
//! cycle does: it either produces the next machine state or reports a
//! [`Fault`], leaving the state as it was.  The executable interpreter is
//! proved to implement it exactly, the randomly drawn byte of the masked
//! random instruction being the one input the machine does not determine.

use vstd::prelude::*;
use crate::font::fontset_seq;
use crate::model::{Fault, MachineView, MEMORY_SIZE, NUM_KEYS, NUM_PIXELS, NUM_REGS, STACK_SIZE};
use crate::sprite::{draw_collision, draw_screen};

verus! {

/// The 16-bit big-endian instruction word stored at `addr`.
pub open spec fn word_at(mem: Seq<u8>, addr: int) -> u16
    recommends
        0 <= addr,
        addr + 1 < MEMORY_SIZE,
{
    ((mem[addr] as u16) << 8u16) | (mem[addr + 1] as u16)
}

/// The instruction word the program counter points at.
pub open spec fn op_at(v: MachineView) -> u16
    recommends
        v.pc as int + 1 < MEMORY_SIZE,
{
    word_at(v.mem, v.pc as int)
}

/// The state with register `x` set to `val`.
pub open spec fn with_reg(v: MachineView, x: int, val: u8) -> MachineView
    recommends
        0 <= x < NUM_REGS,
{
    MachineView { regs: v.regs.update(x, val), ..v }
}

/// The state with the program counter set to `pc`.
pub open spec fn with_pc(v: MachineView, pc: u16) -> MachineView {
    MachineView { pc, ..v }
}

/// The state after skipping the next instruction.
pub open spec fn skipped(v: MachineView) -> MachineView {
    with_pc(v, (v.pc + 2) as u16)
}

/// Wrapping 8-bit subtraction, `(a - b) mod 256`.
pub open spec fn sub_wrap(a: u8, b: u8) -> u8 {
    if a >= b {
        (a - b) as u8
    } else {
        (a - b + 256) as u8
    }
}

/// The lowest-numbered pressed key at or above index `i`, if any.
pub open spec fn first_pressed_from(keys: Seq<bool>, i: int) -> Option<u8>
    recommends
        keys.len() == NUM_KEYS,
        0 <= i <= NUM_KEYS,
    decreases NUM_KEYS as int - i,
{
    if i < 0 || i >= NUM_KEYS as int {
        None
    } else if keys[i] {
        Some(i as u8)
    } else {
        first_pressed_from(keys, i + 1)
    }
}

/// The lowest-numbered pressed key, if any.
pub open spec fn first_pressed(keys: Seq<bool>) -> Option<u8>
    recommends
        keys.len() == NUM_KEYS,
{
    first_pressed_from(keys, 0)
}

/// Memory after the program bytes are copied in at the entry address.
pub open spec fn loaded_mem(mem: Seq<u8>, prog: Seq<u8>) -> Seq<u8>
    recommends
        mem.len() == MEMORY_SIZE,
        prog.len() + 0x200 <= MEMORY_SIZE,
{
    Seq::new(
        MEMORY_SIZE as nat,
        |i: int| if 0x200 <= i < 0x200 + prog.len() {
            prog[i - 0x200]
        } else {
            mem[i]
        },
    )
}

/// Memory of a freshly constructed machine: the font in the lowest 80
/// bytes, zero everywhere else.
pub open spec fn init_mem() -> Seq<u8> {
    Seq::new(
        MEMORY_SIZE as nat,
        |i: int| if 0 <= i < 80 {
            fontset_seq()[i]
        } else {
            0u8
        },
    )
}

/// The state of a freshly constructed machine.
pub open spec fn init_view() -> MachineView {
    MachineView {
        pc: 0x200,
        mem: init_mem(),
        screen: Seq::new(NUM_PIXELS as nat, |i: int| false),
        regs: Seq::new(NUM_REGS as nat, |i: int| 0u8),
        ip: 0,
        stack: Seq::empty(),
        keys: Seq::new(NUM_KEYS as nat, |i: int| false),
        delay: 0,
        sound: 0,
    }
}

/// One fetch/decode/execute cycle: fetch the word at the program counter,
/// advance the counter past it, and execute.  Faults if the counter does
/// not point at two readable bytes.
pub open spec fn step(v: MachineView, rnd: u8) -> Result<MachineView, Fault>
    recommends
        crate::model::wf_view(v),
{
    if v.pc as int + 1 >= MEMORY_SIZE {
        Err(Fault::PcOutOfBounds { pc: v.pc })
    } else {
        exec_op(v.pc, with_pc(v, (v.pc + 2) as u16), op_at(v), rnd)
    }
}

/// Executes the already fetched instruction word `op` on state `v`, whose
/// program counter has been advanced past the word.  `pc0` is the address
/// the word was fetched from, reported in faults; `rnd` is the byte the
/// masked random instruction draws.
pub open spec fn exec_op(pc0: u16, v: MachineView, op: u16, rnd: u8) -> Result<MachineView, Fault> {
    let a = op >> 12u16;
    let c = (op >> 4u16) & 0xF;
    let d = op & 0xF;
    let x = ((op >> 8u16) & 0xF) as int;
    let y = ((op >> 4u16) & 0xF) as int;
    let n = (op & 0xF) as int;
    let nn = (op & 0xFF) as u8;
    let nnn = op & 0xFFF;
    let rx = v.regs[x];
    let ry = v.regs[y];
    if op == 0x0000 {
        // no-op
        Ok(v)
    } else if op == 0x00E0 {
        // clear display
        Ok(MachineView { screen: Seq::new(NUM_PIXELS as nat, |i: int| false), ..v })
    } else if op == 0x00EE {
        // return from subroutine
        if v.stack.len() == 0 {
            Err(Fault::StackUnderflow { pc: pc0 })
        } else {
            Ok(MachineView { pc: v.stack.last(), stack: v.stack.drop_last(), ..v })
        }
    } else if a == 1 {
        // jump NNN
        Ok(with_pc(v, nnn))
    } else if a == 2 {
        // call NNN
        if v.stack.len() >= STACK_SIZE {
            Err(Fault::StackOverflow { pc: pc0 })
        } else {
            Ok(MachineView { pc: nnn, stack: v.stack.push(v.pc), ..v })
        }
    } else if a == 3 {
        // skip if Vx == NN
        Ok(if rx == nn { skipped(v) } else { v })
    } else if a == 4 {
        // skip if Vx != NN
        Ok(if rx != nn { skipped(v) } else { v })
    } else if a == 5 && d == 0 {
        // skip if Vx == Vy
        Ok(if rx == ry { skipped(v) } else { v })
    } else if a == 6 {
        // Vx := NN
        Ok(with_reg(v, x, nn))
    } else if a == 7 {
        // Vx := Vx + NN, wrapping, flag untouched
        Ok(with_reg(v, x, ((rx + nn) % 256) as u8))
    } else if a == 8 && d == 0 {
        // Vx := Vy
        Ok(with_reg(v, x, ry))
    } else if a == 8 && d == 1 {
        // Vx := Vx | Vy
        Ok(with_reg(v, x, rx | ry))
    } else if a == 8 && d == 2 {
        // Vx := Vx & Vy
        Ok(with_reg(v, x, rx & ry))
    } else if a == 8 && d == 3 {
        // Vx := Vx ^ Vy
        Ok(with_reg(v, x, rx ^ ry))
    } else if a == 8 && d == 4 {
        // Vx := Vx + Vy wrapping; flag := carry
        Ok(MachineView {
            regs: v.regs.update(x, ((rx + ry) % 256) as u8).update(
                15,
                if rx + ry > 255 { 1u8 } else { 0u8 },
            ),
            ..v
        })
    } else if a == 8 && d == 5 {
        // Vx := Vx - Vy wrapping; flag := 1 iff no borrow
        Ok(MachineView {
            regs: v.regs.update(x, sub_wrap(rx, ry)).update(
                15,
                if rx >= ry { 1u8 } else { 0u8 },
            ),
            ..v
        })
    } else if a == 8 && d == 6 {
        // flag := low bit of Vx, then Vx := Vx >> 1
        let r1 = v.regs.update(15, rx & 1);
        Ok(MachineView { regs: r1.update(x, r1[x] >> 1u8), ..v })
    } else if a == 8 && d == 7 {
        // flag := 1 iff no borrow, then Vx := Vy - Vx wrapping
        Ok(MachineView {
            regs: v.regs.update(15, if ry >= rx { 1u8 } else { 0u8 }).update(
                x,
                sub_wrap(ry, rx),
            ),
            ..v
        })
    } else if a == 8 && d == 0xE {
        // flag := high bit of Vx, then Vx := Vx << 1 truncated
        let r1 = v.regs.update(15, (rx >> 7u8) & 1);
        Ok(MachineView { regs: r1.update(x, r1[x] << 1u8), ..v })
    } else if a == 9 && d == 0 {
        // skip if Vx != Vy
        Ok(if rx != ry { skipped(v) } else { v })
    } else if a == 0xA {
        // index := NNN
        Ok(MachineView { ip: nnn, ..v })
    } else if a == 0xB {
        // jump to NNN + V0
        Ok(with_pc(v, (v.regs[0] + nnn) as u16))
    } else if a == 0xC {
        // Vx := random byte & NN
        Ok(with_reg(v, x, rnd & nn))
    } else if a == 0xD {
        // draw n-row sprite at (Vx, Vy); flag := collision
        if n > 0 && v.ip as int + n > MEMORY_SIZE {
            Err(Fault::MemoryOutOfBounds { pc: pc0 })
        } else {
            Ok(MachineView {
                screen: draw_screen(v.screen, v.mem, v.ip as int, rx as int, ry as int, n),
                regs: v.regs.update(
                    15,
                    if draw_collision(v.screen, v.mem, v.ip as int, rx as int, ry as int, n) {
                        1u8
                    } else {
                        0u8
                    },
                ),
                ..v
            })
        }
    } else if a == 0xE && c == 9 && d == 0xE {
        // skip if the key numbered by the low nibble of Vx is pressed
        Ok(if v.keys[(rx & 0xF) as int] { skipped(v) } else { v })
    } else if a == 0xE && c == 0xA && d == 1 {
        // skip if that key is not pressed
        Ok(if !v.keys[(rx & 0xF) as int] { skipped(v) } else { v })
    } else if a == 0xF && c == 0 && d == 7 {
        // Vx := delay timer
        Ok(with_reg(v, x, v.delay))
    } else if a == 0xF && c == 0 && d == 0xA {
        // block for key: store first pressed key, else refetch this word
        match first_pressed(v.keys) {
            Some(k) => Ok(with_reg(v, x, k)),
            None => Ok(with_pc(v, (v.pc - 2) as u16)),
        }
    } else if a == 0xF && c == 1 && d == 5 {
        // delay timer := Vx
        Ok(MachineView { delay: rx, ..v })
    } else if a == 0xF && c == 1 && d == 8 {
        // sound timer := Vx
        Ok(MachineView { sound: rx, ..v })
    } else if a == 0xF && c == 1 && d == 0xE {
        // index := index + Vx, wrapping at 16 bits, flag untouched
        Ok(MachineView { ip: ((v.ip + rx) % 0x10000) as u16, ..v })
    } else if a == 0xF && c == 2 && d == 9 {
        // index := address of the glyph for Vx
        Ok(MachineView { ip: (rx * 5) as u16, ..v })
    } else if a == 0xF && c == 3 && d == 3 {
        // store the decimal digits of Vx at index, index+1, index+2
        if v.ip as int + 2 >= MEMORY_SIZE {
            Err(Fault::MemoryOutOfBounds { pc: pc0 })
        } else {
            Ok(MachineView {
                mem: v.mem.update(v.ip as int, rx / 100).update(
                    v.ip as int + 1,
                    (rx / 10) % 10,
                ).update(v.ip as int + 2, rx % 10),
                ..v
            })
        }
    } else if a == 0xF && c == 5 && d == 5 {
        // store V0..=Vx at index onward; index unchanged
        if v.ip as int + x >= MEMORY_SIZE {
            Err(Fault::MemoryOutOfBounds { pc: pc0 })
        } else {
            Ok(MachineView {
                mem: Seq::new(
                    MEMORY_SIZE as nat,
                    |i: int| if v.ip as int <= i <= v.ip as int + x {
                        v.regs[i - v.ip as int]
                    } else {
                        v.mem[i]
                    },
                ),
                ..v
            })
        }
    } else if a == 0xF && c == 6 && d == 5 {
        // load V0..=Vx from index onward; index unchanged
        if v.ip as int + x >= MEMORY_SIZE {
            Err(Fault::MemoryOutOfBounds { pc: pc0 })
        } else {
            Ok(MachineView {
                regs: Seq::new(
                    NUM_REGS as nat,
                    |i: int| if i <= x {
                        v.mem[v.ip as int + i]
                    } else {
                        v.regs[i]
                    },
                ),
                ..v
            })
        }
    } else {
        Err(Fault::UnknownOpcode { pc: pc0, op })
    }
}

} // verus!
