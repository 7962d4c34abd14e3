//! Machine-wide laws: properties of the transition relation that tie
//! several instructions, or an instruction and the machine's layout,
//! together.  Each is proved from [`step`] alone.

use vstd::prelude::*;
use crate::font::{fontset_seq, glyph};
use crate::model::{wf_view, MachineView, MEMORY_SIZE, NUM_KEYS, NUM_PIXELS, STACK_SIZE};
use crate::semantics::{first_pressed_from, op_at, step, sub_wrap, with_pc, word_at};
use crate::sprite::{draw_collision, draw_screen, lemma_pixel_index, sprite_hits};

verus! {

/// An instruction word outside class 0 is none of the three special
/// zero-class words.
proof fn lemma_family_not_special(op: u16)
    requires
        op >> 12u16 != 0,
    ensures
        op != 0x0000,
        op != 0x00E0,
        op != 0x00EE,
{
    assert(op >> 12u16 != 0 ==> op != 0x0000 && op != 0x00E0 && op != 0x00EE) by (bit_vector);
}

/// The operand fields of an instruction word fit their nibble widths.
proof fn lemma_nibble_bounds(op: u16)
    ensures
        (op >> 8u16) & 0xF < 16,
        (op >> 4u16) & 0xF < 16,
        op & 0xF < 16,
        op & 0xFF < 256,
        op & 0xFFF < 4096,
{
    assert((op >> 8u16) & 0xF < 16 && (op >> 4u16) & 0xF < 16 && op & 0xF < 16 && op & 0xFF < 256
        && op & 0xFFF < 4096) by (bit_vector);
}

/// A successful step preserves the machine's shape: memory stays 4096
/// bytes, the framebuffer 64x32 pixels, the register file sixteen wide,
/// the key latch sixteen flags, and the call stack never exceeds sixteen
/// return addresses.
pub proof fn lemma_step_preserves_wf(v: MachineView, rnd: u8)
    requires
        wf_view(v),
        step(v, rnd) is Ok,
    ensures
        wf_view(step(v, rnd)->Ok_0),
{
    lemma_nibble_bounds(op_at(v));
}

/// `8xy4` stores the 8-bit wrapped sum of registers X and Y in register X
/// and sets the flag register to 1 exactly when the true sum exceeds 255.
/// (With X the flag register itself, the flag overwrites the sum.)
pub proof fn lemma_add_with_carry(v: MachineView, rnd: u8, op: u16)
    requires
        wf_view(v),
        v.pc as int + 1 < MEMORY_SIZE as int,
        op_at(v) == op,
        op >> 12u16 == 8,
        op & 0xF == 4,
        (op >> 8u16) & 0xF != 15,
    ensures
        step(v, rnd) is Ok,
        ({
            let w = step(v, rnd)->Ok_0;
            let x = ((op >> 8u16) & 0xF) as int;
            let y = ((op >> 4u16) & 0xF) as int;
            let a = v.regs[x];
            let b = v.regs[y];
            &&& w.regs[x] as int == (a + b) % 256
            &&& w.regs[15] == (if a + b > 255 { 1u8 } else { 0u8 })
        }),
{
    lemma_family_not_special(op);
    lemma_nibble_bounds(op);
}

/// `8xy5` stores the 8-bit wrapped difference of registers X and Y in
/// register X and sets the flag register to 1 exactly when no borrow
/// occurred, i.e. when register X was at least register Y.
/// (With X the flag register itself, the flag overwrites the difference.)
pub proof fn lemma_sub_with_borrow(v: MachineView, rnd: u8, op: u16)
    requires
        wf_view(v),
        v.pc as int + 1 < MEMORY_SIZE as int,
        op_at(v) == op,
        op >> 12u16 == 8,
        op & 0xF == 5,
        (op >> 8u16) & 0xF != 15,
    ensures
        step(v, rnd) is Ok,
        ({
            let w = step(v, rnd)->Ok_0;
            let x = ((op >> 8u16) & 0xF) as int;
            let y = ((op >> 4u16) & 0xF) as int;
            let a = v.regs[x];
            let b = v.regs[y];
            &&& w.regs[x] as int == (a - b) % 256
            &&& w.regs[15] == (if a >= b { 1u8 } else { 0u8 })
        }),
{
    lemma_family_not_special(op);
    lemma_nibble_bounds(op);
    let x = ((op >> 8u16) & 0xF) as int;
    let y = ((op >> 4u16) & 0xF) as int;
    assert(sub_wrap(v.regs[x], v.regs[y]) as int == (v.regs[x] - v.regs[y]) % 256);
}

/// Drawing a sprite is an involution on the framebuffer: drawing it again
/// restores every pixel, and the second draw collides exactly when the
/// first turned some pixel from off to on.
pub proof fn lemma_draw_cancels(screen: Seq<bool>, mem: Seq<u8>, ip: int, x0: int, y0: int, n: int)
    requires
        screen.len() == NUM_PIXELS as int,
    ensures
        draw_screen(draw_screen(screen, mem, ip, x0, y0, n), mem, ip, x0, y0, n) == screen,
        draw_collision(draw_screen(screen, mem, ip, x0, y0, n), mem, ip, x0, y0, n) <==> (
        exists|px: int, py: int|
            0 <= px < 64 && 0 <= py < 32 && #[trigger] sprite_hits(mem, ip, x0, y0, n, px, py)
                && !screen[py * 64 + px]),
{
    let once = draw_screen(screen, mem, ip, x0, y0, n);
    assert(draw_screen(once, mem, ip, x0, y0, n) =~= screen);
    if draw_collision(once, mem, ip, x0, y0, n) {
        let (px, py) = choose|px: int, py: int|
            0 <= px < 64 && 0 <= py < 32 && #[trigger] sprite_hits(mem, ip, x0, y0, n, px, py)
                && once[py * 64 + px];
        lemma_pixel_index(px, py);
        assert(!screen[py * 64 + px]);
    }
    if exists|px: int, py: int|
        0 <= px < 64 && 0 <= py < 32 && #[trigger] sprite_hits(mem, ip, x0, y0, n, px, py)
            && !screen[py * 64 + px] {
        let (px, py) = choose|px: int, py: int|
            0 <= px < 64 && 0 <= py < 32 && #[trigger] sprite_hits(mem, ip, x0, y0, n, px, py)
                && !screen[py * 64 + px];
        lemma_pixel_index(px, py);
        assert(once[py * 64 + px]);
    }
}

/// Executing the same draw instruction twice in a row restores the
/// framebuffer to its pre-draw state, and the second draw's collision flag
/// is 1 exactly when the first draw turned some pixel on.
pub proof fn lemma_draw_twice(v: MachineView, rnd: u8, rnd2: u8, op: u16)
    requires
        wf_view(v),
        v.pc as int + 3 < MEMORY_SIZE as int,
        word_at(v.mem, v.pc as int) == op,
        word_at(v.mem, v.pc as int + 2) == op,
        op >> 12u16 == 0xD,
        (op >> 8u16) & 0xF != 15,
        (op >> 4u16) & 0xF != 15,
        op & 0xF > 0 ==> v.ip as int + (op & 0xF) as int <= MEMORY_SIZE as int,
    ensures
        step(v, rnd) is Ok,
        step(step(v, rnd)->Ok_0, rnd2) is Ok,
        step(step(v, rnd)->Ok_0, rnd2)->Ok_0.screen == v.screen,
        ({
            let x0 = v.regs[((op >> 8u16) & 0xF) as int] as int;
            let y0 = v.regs[((op >> 4u16) & 0xF) as int] as int;
            let n = (op & 0xF) as int;
            step(step(v, rnd)->Ok_0, rnd2)->Ok_0.regs[15] == 1 <==> (exists|px: int, py: int|
                0 <= px < 64 && 0 <= py < 32 && #[trigger] sprite_hits(
                    v.mem, v.ip as int, x0, y0, n, px, py,
                ) && !v.screen[py * 64 + px])
        }),
{
    lemma_family_not_special(op);
    lemma_nibble_bounds(op);
    let x = ((op >> 8u16) & 0xF) as int;
    let y = ((op >> 4u16) & 0xF) as int;
    let x0 = v.regs[x] as int;
    let y0 = v.regs[y] as int;
    let n = (op & 0xF) as int;
    let v1 = step(v, rnd)->Ok_0;
    assert(v1.regs[x] == v.regs[x] && v1.regs[y] == v.regs[y]);
    assert(op_at(v1) == op);
    lemma_draw_cancels(v.screen, v.mem, v.ip as int, x0, y0, n);
}

/// `Fx29` points the index register at the glyph for the digit held in
/// register X: the index becomes five times the digit, and when the font
/// area of memory is intact the glyph's five bytes lie there.
pub proof fn lemma_font_character(v: MachineView, rnd: u8, op: u16, k: u8)
    requires
        wf_view(v),
        v.pc as int + 1 < MEMORY_SIZE as int,
        op_at(v) == op,
        op >> 12u16 == 0xF,
        (op >> 4u16) & 0xF == 2,
        op & 0xF == 9,
        v.regs[((op >> 8u16) & 0xF) as int] == k,
        k < 16,
        v.mem.subrange(0, 80) == fontset_seq(),
    ensures
        step(v, rnd) is Ok,
        step(v, rnd)->Ok_0.ip == 5 * k,
        forall|j: int| 0 <= j < 5 ==> step(v, rnd)->Ok_0.mem[5 * k + j] == glyph(k as int)[j],
{
    lemma_family_not_special(op);
    lemma_nibble_bounds(op);
    let w = step(v, rnd)->Ok_0;
    assert forall|j: int| 0 <= j < 5 implies w.mem[5 * k + j] == glyph(k as int)[j] by {
        assert(w.mem[5 * k + j] == v.mem.subrange(0, 80)[5 * k + j]);
        assert(glyph(k as int)[j] == fontset_seq()[5 * k + j]);
    }
}

/// `Fx33` stores the decimal digits of register X at the index register,
/// hundreds first; each digit is below ten and the three digits recompose
/// to the register's value.
pub proof fn lemma_bcd_round_trip(v: MachineView, rnd: u8, op: u16)
    requires
        wf_view(v),
        v.pc as int + 1 < MEMORY_SIZE as int,
        op_at(v) == op,
        op >> 12u16 == 0xF,
        (op >> 4u16) & 0xF == 3,
        op & 0xF == 3,
        v.ip as int + 2 < MEMORY_SIZE as int,
    ensures
        step(v, rnd) is Ok,
        ({
            let w = step(v, rnd)->Ok_0;
            let val = v.regs[((op >> 8u16) & 0xF) as int];
            &&& w.mem[v.ip as int] == val / 100
            &&& w.mem[v.ip as int + 1] == (val / 10) % 10
            &&& w.mem[v.ip as int + 2] == val % 10
            &&& w.mem[v.ip as int] < 10
            &&& w.mem[v.ip as int + 1] < 10
            &&& w.mem[v.ip as int + 2] < 10
            &&& w.mem[v.ip as int] * 100 + w.mem[v.ip as int + 1] * 10 + w.mem[v.ip as int + 2]
                == val
        }),
{
    lemma_family_not_special(op);
    lemma_nibble_bounds(op);
    let val = v.regs[((op >> 8u16) & 0xF) as int];
    assert(val / 100 < 10 && (val / 10) % 10 < 10 && val % 10 < 10 && (val / 100) * 100 + ((val
        / 10) % 10) * 10 + val % 10 == val) by (bit_vector);
}

/// A call immediately followed by the return it jumps to leaves the
/// program counter at the instruction after the call and the whole
/// machine, call stack included, as it was.
pub proof fn lemma_call_return(v: MachineView, rnd: u8, rnd2: u8, op: u16)
    requires
        wf_view(v),
        v.pc as int + 1 < MEMORY_SIZE as int,
        op_at(v) == op,
        op >> 12u16 == 2,
        v.stack.len() < STACK_SIZE as int,
        (op & 0xFFF) as int + 1 < MEMORY_SIZE as int,
        word_at(v.mem, (op & 0xFFF) as int) == 0x00EE,
    ensures
        step(v, rnd) is Ok,
        step(step(v, rnd)->Ok_0, rnd2) is Ok,
        step(step(v, rnd)->Ok_0, rnd2)->Ok_0 == (MachineView { pc: (v.pc + 2) as u16, ..v }),
{
    lemma_family_not_special(op);
    lemma_nibble_bounds(op);
    let v1 = step(v, rnd)->Ok_0;
    assert(op_at(v1) == 0x00EE);
    let v2 = step(v1, rnd2)->Ok_0;
    assert(v1.stack.drop_last() =~= v.stack);
    assert(v2 =~= (MachineView { pc: (v.pc + 2) as u16, ..v }));
}

/// With every key in the given range unpressed, no key is found.
proof fn lemma_first_pressed_none(keys: Seq<bool>, i: int)
    requires
        0 <= i <= NUM_KEYS as int,
        forall|j: int| i <= j < NUM_KEYS as int ==> !keys[j],
    ensures
        first_pressed_from(keys, i) is None,
    decreases NUM_KEYS as int - i,
{
    if i < NUM_KEYS as int {
        lemma_first_pressed_none(keys, i + 1);
    }
}

/// With no key pressed, the wait-for-key instruction leaves the machine
/// exactly as it was: the same instruction re-executes on the next step
/// and there is no net program-counter advance.
pub proof fn lemma_wait_key_blocks(v: MachineView, rnd: u8, op: u16)
    requires
        wf_view(v),
        v.pc as int + 1 < MEMORY_SIZE as int,
        op_at(v) == op,
        op >> 12u16 == 0xF,
        (op >> 4u16) & 0xF == 0,
        op & 0xF == 0xA,
        forall|i: int| 0 <= i < NUM_KEYS as int ==> !v.keys[i],
    ensures
        step(v, rnd) == Ok::<MachineView, crate::model::Fault>(v),
{
    lemma_family_not_special(op);
    lemma_nibble_bounds(op);
    lemma_first_pressed_none(v.keys, 0);
    let vf = with_pc(v, (v.pc + 2) as u16);
    assert(with_pc(vf, (vf.pc - 2) as u16) =~= v);
}

} // verus!
