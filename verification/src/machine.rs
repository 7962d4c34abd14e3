//! The executable machine and its verified operations.

use vstd::prelude::*;
use crate::font::{font_bytes, fontset_seq};
use crate::model::{
    Fault, MachineView, wf_view, ENTRY_POINT_ADDR, MEMORY_SIZE, NUM_KEYS, NUM_PIXELS, NUM_REGS,
    STACK_SIZE,
};
use crate::semantics::{
    exec_op, first_pressed, first_pressed_from, init_mem, init_view, loaded_mem, op_at, step,
    with_pc,
};
use crate::sprite::{
    draw_collision, draw_collision_upto, draw_screen, lemma_collision_congruence,
    lemma_pixel_index, lemma_sprite_source, lemma_sprite_target, sprite_hits, sprite_hits_upto,
};
use crate::rng::random_byte;

verus! {

/// The machine: processor, memory and peripherals in one aggregate.
///
/// Its abstract state is the [`MachineView`] given by `@`; every operation
/// states its effect on that view, and one instruction step implements the
/// transition relation [`step`] exactly.
pub struct Processor {
    pc: u16,
    mem: Vec<u8>,
    screen: Vec<bool>,
    registers: Vec<u8>,
    ip: u16,
    sp: u16,
    stack: Vec<u16>,
    keys: Vec<bool>,
    delay_timer: u8,
    sound_timer: u8,
}

impl View for Processor {
    type V = MachineView;

    closed spec fn view(&self) -> MachineView {
        MachineView {
            pc: self.pc,
            mem: self.mem@,
            screen: self.screen@,
            regs: self.registers@,
            ip: self.ip,
            stack: self.stack@.take(self.sp as int),
            keys: self.keys@,
            delay: self.delay_timer,
            sound: self.sound_timer,
        }
    }
}

/// A vector of `n` copies of `val`.
fn filled<T: Copy>(n: usize, val: T) -> (v: Vec<T>)
    ensures
        v@ == Seq::new(n as nat, |i: int| val),
{
    let mut v: Vec<T> = Vec::new();
    while v.len() < n
        invariant
            v@.len() <= n,
            forall|i: int| 0 <= i < v@.len() ==> v@[i] == val,
        decreases n - v@.len(),
    {
        v.push(val);
    }
    proof {
        assert(v@ =~= Seq::new(n as nat, |i: int| val));
    }
    v
}

impl Processor {
    /// The representation a machine always keeps: fixed-size storage and a
    /// stack pointer that equals the current call depth.
    pub closed spec fn wf(&self) -> bool {
        &&& self.mem@.len() == MEMORY_SIZE
        &&& self.screen@.len() == NUM_PIXELS
        &&& self.registers@.len() == NUM_REGS
        &&& self.stack@.len() == STACK_SIZE
        &&& self.keys@.len() == NUM_KEYS
        &&& self.sp <= STACK_SIZE as u16
    }

    /// A well-formed machine has a well-formed view.  `wf` is opaque to
    /// callers, so this is the bridge that lets the laws stated over
    /// [`MachineView`] be applied to a machine's `@`.
    pub proof fn lemma_wf_view(&self)
        requires
            self.wf(),
        ensures
            wf_view(self@),
    {
    }

    /// Builds a fresh machine: font in low memory, everything else zeroed,
    /// program counter at the entry address.
    pub fn new() -> (r: Processor)
        ensures
            r.wf(),
            r@ == init_view(),
    {
        let mut mem = font_bytes();
        while mem.len() < MEMORY_SIZE
            invariant
                80 <= mem@.len() <= MEMORY_SIZE,
                forall|i: int| 0 <= i < 80 ==> mem@[i] == fontset_seq()[i],
                forall|i: int| 80 <= i < mem@.len() ==> mem@[i] == 0u8,
            decreases MEMORY_SIZE - mem@.len(),
        {
            mem.push(0);
        }
        proof {
            assert(mem@ =~= init_mem());
        }
        let r = Processor {
            pc: ENTRY_POINT_ADDR,
            mem,
            screen: filled(NUM_PIXELS, false),
            registers: filled(NUM_REGS, 0u8),
            ip: 0,
            sp: 0,
            stack: filled(STACK_SIZE, 0u16),
            keys: filled(NUM_KEYS, false),
            delay_timer: 0,
            sound_timer: 0,
        };
        proof {
            assert(r@ =~= init_view());
        }
        r
    }

    /// Restores the fresh-machine state in place.
    pub fn reset(&mut self)
        ensures
            final(self).wf(),
            final(self)@ == init_view(),
    {
        *self = Processor::new();
    }

    /// Copies a program image into memory at the entry address.  The image
    /// must fit below the end of memory; nothing else changes.
    pub fn load_rom(&mut self, buffer: &[u8])
        requires
            old(self).wf(),
            buffer@.len() + ENTRY_POINT_ADDR as int <= MEMORY_SIZE as int,
        ensures
            final(self).wf(),
            final(self)@ == (MachineView {
                mem: loaded_mem(old(self)@.mem, buffer@),
                ..old(self)@
            }),
    {
        let len = buffer.len();
        let mut i: usize = 0;
        while i < len
            invariant
                old(self).wf(),
                i <= len,
                len == buffer@.len(),
                len + ENTRY_POINT_ADDR as int <= MEMORY_SIZE as int,
                self.pc == old(self).pc,
                self.mem@.len() == MEMORY_SIZE,
                self.screen == old(self).screen,
                self.registers == old(self).registers,
                self.ip == old(self).ip,
                self.sp == old(self).sp,
                self.stack == old(self).stack,
                self.keys == old(self).keys,
                self.delay_timer == old(self).delay_timer,
                self.sound_timer == old(self).sound_timer,
                forall|j: int| 0 <= j < i ==> self.mem@[0x200 + j] == buffer@[j],
                forall|j: int|
                    0 <= j < MEMORY_SIZE && !(0x200 <= j < 0x200 + i) ==> self.mem@[j]
                        == old(self).mem@[j],
            decreases len - i,
        {
            let b = *vstd::slice::slice_index_get(buffer, i);
            self.mem.set(0x200 + i, b);
            i = i + 1;
        }
        proof {
            assert(self.mem@ =~= loaded_mem(old(self)@.mem, buffer@));
            assert(self@ =~= (MachineView { mem: loaded_mem(old(self)@.mem, buffer@), ..old(self)@ }));
        }
    }

    /// Overwrites one key latch flag.  The key index must be 0 through 15.
    pub fn press_key(&mut self, key: usize, pressed: bool)
        requires
            old(self).wf(),
            key < NUM_KEYS,
        ensures
            final(self).wf(),
            final(self)@ == (MachineView {
                keys: old(self)@.keys.update(key as int, pressed),
                ..old(self)@
            }),
    {
        self.keys.set(key, pressed);
        proof {
            assert(self@ =~= (MachineView {
                keys: old(self)@.keys.update(key as int, pressed),
                ..old(self)@
            }));
        }
    }

    /// The framebuffer as a read-only slice of 64x32 booleans, row-major:
    /// pixel `(x, y)` is at index `x + 64 * y`.
    pub fn get_display(&self) -> (r: &[bool])
        requires
            self.wf(),
        ensures
            r@ == self@.screen,
            r@.len() == NUM_PIXELS,
    {
        self.screen.as_slice()
    }

    /// Decrements each timer toward zero, stopping at zero.
    pub fn timer_tick(&mut self)
        requires
            old(self).wf(),
        ensures
            final(self).wf(),
            final(self)@ == (MachineView {
                delay: if old(self)@.delay > 0 { (old(self)@.delay - 1) as u8 } else { 0u8 },
                sound: if old(self)@.sound > 0 { (old(self)@.sound - 1) as u8 } else { 0u8 },
                ..old(self)@
            }),
    {
        if self.delay_timer > 0 {
            self.delay_timer = self.delay_timer - 1;
        }
        if self.sound_timer > 0 {
            self.sound_timer = self.sound_timer - 1;
        }
        proof {
            assert(self@ =~= (MachineView {
                delay: if old(self)@.delay > 0 { (old(self)@.delay - 1) as u8 } else { 0u8 },
                sound: if old(self)@.sound > 0 { (old(self)@.sound - 1) as u8 } else { 0u8 },
                ..old(self)@
            }));
        }
    }

    /// The value of register `i`.
    pub fn register(&self, i: usize) -> (r: u8)
        requires
            self.wf(),
            i < NUM_REGS,
        ensures
            r == self@.regs[i as int],
    {
        self.registers[i]
    }

    /// The program counter.
    pub fn program_counter(&self) -> (r: u16)
        ensures
            r == self@.pc,
    {
        self.pc
    }

    /// The index register.
    pub fn index_register(&self) -> (r: u16)
        ensures
            r == self@.ip,
    {
        self.ip
    }

    /// The memory byte at `addr`.
    pub fn memory_byte(&self, addr: usize) -> (r: u8)
        requires
            self.wf(),
            addr < MEMORY_SIZE,
        ensures
            r == self@.mem[addr as int],
    {
        self.mem[addr]
    }

    /// The current call-stack depth.
    pub fn stack_depth(&self) -> (r: usize)
        requires
            self.wf(),
        ensures
            r == self@.stack.len(),
    {
        self.sp as usize
    }

    /// The delay timer's current value.
    pub fn delay_timer_value(&self) -> (r: u8)
        ensures
            r == self@.delay,
    {
        self.delay_timer
    }

    /// The sound timer's current value; nonzero means a tone should sound.
    pub fn sound_timer_value(&self) -> (r: u8)
        ensures
            r == self@.sound,
    {
        self.sound_timer
    }

    /// Pushes a return address; the stack must not be full.
    fn push(&mut self, val: u16)
        requires
            old(self).wf(),
            old(self)@.stack.len() < STACK_SIZE,
        ensures
            final(self).wf(),
            final(self)@ == (MachineView { stack: old(self)@.stack.push(val), ..old(self)@ }),
    {
        self.stack.set(self.sp as usize, val);
        self.sp = self.sp + 1;
        proof {
            assert(self.stack@.take(self.sp as int) =~= old(self)@.stack.push(val));
            assert(self@ =~= (MachineView { stack: old(self)@.stack.push(val), ..old(self)@ }));
        }
    }

    /// Pops the most recent return address; the stack must not be empty.
    fn pop(&mut self) -> (r: u16)
        requires
            old(self).wf(),
            old(self)@.stack.len() > 0,
        ensures
            final(self).wf(),
            r == old(self)@.stack.last(),
            final(self)@ == (MachineView { stack: old(self)@.stack.drop_last(), ..old(self)@ }),
    {
        self.sp = self.sp - 1;
        let r = self.stack[self.sp as usize];
        proof {
            assert(self.stack@.take(self.sp as int) =~= old(self)@.stack.drop_last());
            assert(self@ =~= (MachineView { stack: old(self)@.stack.drop_last(), ..old(self)@ }));
        }
        r
    }

    /// Scans the key latch in ascending order for a pressed key.
    fn find_first_key(&self) -> (r: Option<u8>)
        requires
            self.wf(),
        ensures
            r == first_pressed(self@.keys),
    {
        let mut i: usize = 0;
        while i < NUM_KEYS
            invariant
                self.wf(),
                i <= NUM_KEYS,
                first_pressed(self@.keys) == first_pressed_from(self@.keys, i as int),
            decreases NUM_KEYS - i,
        {
            if self.keys[i] {
                return Some(i as u8);
            }
            i = i + 1;
        }
        None
    }

    /// Copies registers 0 through `x` into memory at the index register.
    fn store_regs(&mut self, x: usize)
        requires
            old(self).wf(),
            x < NUM_REGS,
            old(self)@.ip as int + x < MEMORY_SIZE as int,
        ensures
            final(self).wf(),
            final(self)@ == (MachineView {
                mem: Seq::new(
                    MEMORY_SIZE as nat,
                    |i: int| if old(self)@.ip as int <= i <= old(self)@.ip as int + x {
                        old(self)@.regs[i - old(self)@.ip as int]
                    } else {
                        old(self)@.mem[i]
                    },
                ),
                ..old(self)@
            }),
    {
        let ipu = self.ip as usize;
        let mut i: usize = 0;
        while i <= x
            invariant
                old(self).wf(),
                i <= x + 1,
                x < NUM_REGS,
                ipu == old(self)@.ip as int,
                ipu + x < MEMORY_SIZE,
                self.pc == old(self).pc,
                self.mem@.len() == MEMORY_SIZE,
                self.screen == old(self).screen,
                self.registers == old(self).registers,
                self.ip == old(self).ip,
                self.sp == old(self).sp,
                self.stack == old(self).stack,
                self.keys == old(self).keys,
                self.delay_timer == old(self).delay_timer,
                self.sound_timer == old(self).sound_timer,
                forall|j: int| ipu <= j < ipu + i ==> self.mem@[j] == old(self).registers@[j - ipu],
                forall|j: int|
                    0 <= j < MEMORY_SIZE && !(ipu <= j < ipu + i) ==> self.mem@[j]
                        == old(self).mem@[j],
            decreases x + 1 - i,
        {
            let b = self.registers[i];
            self.mem.set(ipu + i, b);
            i = i + 1;
        }
        proof {
            assert(self.mem@ =~= Seq::new(
                MEMORY_SIZE as nat,
                |i: int| if old(self)@.ip as int <= i <= old(self)@.ip as int + x {
                    old(self)@.regs[i - old(self)@.ip as int]
                } else {
                    old(self)@.mem[i]
                },
            ));
            assert(self@ =~= (MachineView { mem: self.mem@, ..old(self)@ }));
        }
    }

    /// Fills registers 0 through `x` from memory at the index register.
    fn load_regs(&mut self, x: usize)
        requires
            old(self).wf(),
            x < NUM_REGS,
            old(self)@.ip as int + x < MEMORY_SIZE as int,
        ensures
            final(self).wf(),
            final(self)@ == (MachineView {
                regs: Seq::new(
                    NUM_REGS as nat,
                    |i: int| if i <= x {
                        old(self)@.mem[old(self)@.ip as int + i]
                    } else {
                        old(self)@.regs[i]
                    },
                ),
                ..old(self)@
            }),
    {
        let ipu = self.ip as usize;
        let mut i: usize = 0;
        while i <= x
            invariant
                old(self).wf(),
                i <= x + 1,
                x < NUM_REGS,
                ipu == old(self)@.ip as int,
                ipu + x < MEMORY_SIZE,
                self.pc == old(self).pc,
                self.mem == old(self).mem,
                self.screen == old(self).screen,
                self.registers@.len() == NUM_REGS,
                self.ip == old(self).ip,
                self.sp == old(self).sp,
                self.stack == old(self).stack,
                self.keys == old(self).keys,
                self.delay_timer == old(self).delay_timer,
                self.sound_timer == old(self).sound_timer,
                forall|j: int| 0 <= j < i ==> self.registers@[j] == old(self).mem@[ipu + j],
                forall|j: int| i <= j < NUM_REGS ==> self.registers@[j] == old(self).registers@[j],
            decreases x + 1 - i,
        {
            let b = self.mem[ipu + i];
            self.registers.set(i, b);
            i = i + 1;
        }
        proof {
            assert(self.registers@ =~= Seq::new(
                NUM_REGS as nat,
                |i: int| if i <= x {
                    old(self)@.mem[old(self)@.ip as int + i]
                } else {
                    old(self)@.regs[i]
                },
            ));
            assert(self@ =~= (MachineView { regs: self.registers@, ..old(self)@ }));
        }
    }

    /// XOR-draws the `n`-row sprite at the index register onto the screen
    /// with origin `(x0 mod 64, y0 mod 32)`, reporting whether any pixel
    /// was turned from on to off.
    #[verifier::loop_isolation(false)]
    fn draw_sprite(&mut self, x0: u8, y0: u8, n: u8) -> (collision: bool)
        requires
            old(self).wf(),
            n <= 15,
            n > 0 ==> old(self)@.ip as int + n as int <= MEMORY_SIZE as int,
        ensures
            final(self).wf(),
            final(self)@ == (MachineView {
                screen: draw_screen(
                    old(self)@.screen,
                    old(self)@.mem,
                    old(self)@.ip as int,
                    x0 as int,
                    y0 as int,
                    n as int,
                ),
                ..old(self)@
            }),
            collision == draw_collision(
                old(self)@.screen,
                old(self)@.mem,
                old(self)@.ip as int,
                x0 as int,
                y0 as int,
                n as int,
            ),
    {
        let ghost s0 = old(self)@.screen;
        let ghost m0 = old(self)@.mem;
        let ghost ip0 = old(self)@.ip as int;
        let ghost gx = x0 as int;
        let ghost gy = y0 as int;
        let ghost gn = n as int;
        let mut collision = false;
        let mut row: usize = 0;
        proof {
            if draw_collision_upto(s0, m0, ip0, gx, gy, gn, 0, 0) {
                let (px, py) = choose|px: int, py: int|
                    0 <= px < 64 && 0 <= py < 32 && #[trigger] sprite_hits_upto(
                        m0, ip0, gx, gy, gn, 0, 0, px, py,
                    ) && s0[py * 64 + px];
                assert(false);
            }
        }
        while row < n as usize
            invariant
                row <= n as usize,
                self.pc == old(self).pc,
                self.mem == old(self).mem,
                self.registers == old(self).registers,
                self.ip == old(self).ip,
                self.sp == old(self).sp,
                self.stack == old(self).stack,
                self.keys == old(self).keys,
                self.delay_timer == old(self).delay_timer,
                self.sound_timer == old(self).sound_timer,
                self.screen@.len() == NUM_PIXELS,
                forall|px: int, py: int|
                    0 <= px < 64 && 0 <= py < 32 ==> self.screen@[py * 64 + px] == (
                    if sprite_hits_upto(m0, ip0, gx, gy, gn, row as int, 0, px, py) {
                        !s0[py * 64 + px]
                    } else {
                        s0[py * 64 + px]
                    }),
                collision == draw_collision_upto(s0, m0, ip0, gx, gy, gn, row as int, 0),
            decreases n as int - row,
        {
            let pixels = self.mem[self.ip as usize + row];
            let mut col: usize = 0;
            while col < 8
                invariant
                    col <= 8,
                    row < n as usize,
                    pixels == m0[ip0 + row as int],
                    self.pc == old(self).pc,
                    self.mem == old(self).mem,
                    self.registers == old(self).registers,
                    self.ip == old(self).ip,
                    self.sp == old(self).sp,
                    self.stack == old(self).stack,
                    self.keys == old(self).keys,
                    self.delay_timer == old(self).delay_timer,
                    self.sound_timer == old(self).sound_timer,
                    self.screen@.len() == NUM_PIXELS,
                    forall|px: int, py: int|
                        0 <= px < 64 && 0 <= py < 32 ==> self.screen@[py * 64 + px] == (
                        if sprite_hits_upto(m0, ip0, gx, gy, gn, row as int, col as int, px, py) {
                            !s0[py * 64 + px]
                        } else {
                            s0[py * 64 + px]
                        }),
                    collision == draw_collision_upto(
                        s0, m0, ip0, gx, gy, gn, row as int, col as int,
                    ),
                decreases 8 - col,
            {
                if pixels & (0x80u8 >> (col as u8)) != 0 {
                    let xco = (x0 as usize + col) % 64;
                    let yco = (y0 as usize + row) % 32;
                    let idx = xco + 64 * yco;
                    proof {
                        lemma_sprite_target(gx, gy, row as int, col as int);
                        lemma_pixel_index(xco as int, yco as int);
                    }
                    let cur = self.screen[idx];
                    let ghost prev = self.screen@;
                    let ghost oldcol = collision;
                    collision = collision || cur;
                    self.screen.set(idx, !cur);
                    proof {
                        assert(sprite_hits_upto(
                            m0, ip0, gx, gy, gn, row as int, col as int + 1, xco as int, yco as int,
                        ));
                        assert(!sprite_hits_upto(
                            m0, ip0, gx, gy, gn, row as int, col as int, xco as int, yco as int,
                        ));
                        assert(prev[idx as int] == s0[idx as int]);
                        let ghost colp = col as int + 1;
                        assert forall|px: int, py: int|
                            #![trigger sprite_hits_upto(m0, ip0, gx, gy, gn, row as int, colp, px, py)]
                            0 <= px < 64 && 0 <= py < 32 implies self.screen@[py * 64 + px] == (
                            if sprite_hits_upto(
                                m0, ip0, gx, gy, gn, row as int, colp, px, py,
                            ) {
                                !s0[py * 64 + px]
                            } else {
                                s0[py * 64 + px]
                            }) by {
                            lemma_pixel_index(px, py);
                            let hit_before = sprite_hits_upto(
                                m0, ip0, gx, gy, gn, row as int, col as int, px, py,
                            );
                            assert(prev[py * 64 + px] == (if hit_before {
                                !s0[py * 64 + px]
                            } else {
                                s0[py * 64 + px]
                            }));
                            if px == xco as int && py == yco as int {
                                assert(py * 64 + px == idx as int);
                            } else {
                                lemma_sprite_source(gx, gy, px, py);
                                assert(py * 64 + px != idx as int);
                            }
                        }
                        assert(collision == draw_collision_upto(
                            s0, m0, ip0, gx, gy, gn, row as int, col as int + 1,
                        )) by {
                            if oldcol {
                                let (px, py) = choose|px: int, py: int|
                                    0 <= px < 64 && 0 <= py < 32 && #[trigger] sprite_hits_upto(
                                        m0, ip0, gx, gy, gn, row as int, col as int, px, py,
                                    ) && s0[py * 64 + px];
                                assert(sprite_hits_upto(
                                    m0, ip0, gx, gy, gn, row as int, col as int + 1, px, py,
                                ));
                            } else if cur {
                                assert(s0[yco as int * 64 + xco as int]);
                            } else {
                                if draw_collision_upto(
                                    s0, m0, ip0, gx, gy, gn, row as int, col as int + 1,
                                ) {
                                    let (px, py) = choose|px: int, py: int|
                                        0 <= px < 64 && 0 <= py < 32 && #[trigger] sprite_hits_upto(
                                            m0, ip0, gx, gy, gn, row as int, col as int + 1, px, py,
                                        ) && s0[py * 64 + px];
                                    if sprite_hits_upto(
                                        m0, ip0, gx, gy, gn, row as int, col as int, px, py,
                                    ) {
                                        assert(false);
                                    } else {
                                        lemma_sprite_source(gx, gy, px, py);
                                        assert(px == xco as int && py == yco as int);
                                        assert(false);
                                    }
                                }
                            }
                        }
                    }
                } else {
                    proof {
                        assert forall|px: int, py: int|
                            0 <= px < 64 && 0 <= py < 32 implies #[trigger] sprite_hits_upto(
                            m0, ip0, gx, gy, gn, row as int, col as int + 1, px, py,
                        ) == sprite_hits_upto(
                            m0, ip0, gx, gy, gn, row as int, col as int, px, py,
                        ) by {
                            lemma_sprite_target(gx, gy, row as int, col as int);
                            lemma_sprite_source(gx, gy, px, py);
                        }
                        lemma_collision_congruence(
                            s0, m0, ip0, gx, gy, gn, row as int, col as int + 1, row as int,
                            col as int,
                        );
                    }
                }
                col = col + 1;
            }
            proof {
                let ghost rowp = row as int + 1;
                assert forall|px: int, py: int|
                    #![trigger sprite_hits_upto(m0, ip0, gx, gy, gn, rowp, 0, px, py)]
                    0 <= px < 64 && 0 <= py < 32 implies sprite_hits_upto(
                    m0, ip0, gx, gy, gn, row as int, 8, px, py,
                ) == sprite_hits_upto(
                    m0, ip0, gx, gy, gn, rowp, 0, px, py,
                ) by {}
                lemma_collision_congruence(
                    s0, m0, ip0, gx, gy, gn, row as int, 8, rowp, 0,
                );
            }
            row = row + 1;
        }
        proof {
            assert forall|px: int, py: int|
                0 <= px < 64 && 0 <= py < 32 implies #[trigger] sprite_hits_upto(
                m0, ip0, gx, gy, gn, gn, 0, px, py,
            ) == sprite_hits(m0, ip0, gx, gy, gn, px, py) by {}
            assert(collision == draw_collision(s0, m0, ip0, gx, gy, gn)) by {
                if collision {
                    let (px, py) = choose|px: int, py: int|
                        0 <= px < 64 && 0 <= py < 32 && #[trigger] sprite_hits_upto(
                            m0, ip0, gx, gy, gn, gn, 0, px, py,
                        ) && s0[py * 64 + px];
                    assert(sprite_hits(m0, ip0, gx, gy, gn, px, py));
                }
                if draw_collision(s0, m0, ip0, gx, gy, gn) {
                    let (px, py) = choose|px: int, py: int|
                        0 <= px < 64 && 0 <= py < 32 && #[trigger] sprite_hits(
                            m0, ip0, gx, gy, gn, px, py,
                        ) && s0[py * 64 + px];
                    assert(sprite_hits_upto(m0, ip0, gx, gy, gn, gn, 0, px, py));
                }
            }
            assert(self.screen@ =~= draw_screen(s0, m0, ip0, gx, gy, gn)) by {
                assert forall|p: int| 0 <= p < NUM_PIXELS implies self.screen@[p] == draw_screen(
                    s0, m0, ip0, gx, gy, gn,
                )[p] by {
                    vstd::arithmetic::div_mod::lemma_fundamental_div_mod(p, 64);
                    let px = p % 64;
                    let py = p / 64;
                    assert(0 <= px < 64);
                    assert(0 <= py < 32);
                    assert(p == py * 64 + px);
                    assert(sprite_hits_upto(m0, ip0, gx, gy, gn, gn, 0, px, py)
                        == sprite_hits(m0, ip0, gx, gy, gn, px, py));
                    assert(self.screen@[py * 64 + px] == (
                    if sprite_hits_upto(m0, ip0, gx, gy, gn, row as int, 0, px, py) {
                        !s0[py * 64 + px]
                    } else {
                        s0[py * 64 + px]
                    }));
                }
            }
            assert(self@ =~= (MachineView {
                screen: draw_screen(s0, m0, ip0, gx, gy, gn),
                ..old(self)@
            }));
        }
        collision
    }

    /// Advances the machine by one instruction, the byte for the masked
    /// random instruction supplied by the caller.  This is the
    /// deterministic core of [`Processor::tick`]: the new state is exactly
    /// `step` of the old one, and a faulting step changes nothing.
    #[verifier::rlimit(50)]
    pub fn step_with(&mut self, rnd: u8) -> (r: Result<(), Fault>)
        requires
            old(self).wf(),
        ensures
            final(self).wf(),
            match r {
                Ok(_) => step(old(self)@, rnd) == Ok::<MachineView, Fault>(final(self)@),
                Err(f) => step(old(self)@, rnd) == Err::<MachineView, Fault>(f) && final(self)@
                    == old(self)@,
            },
    {
        let ghost v0 = self@;
        if self.pc as usize + 1 >= MEMORY_SIZE {
            return Err(Fault::PcOutOfBounds { pc: self.pc });
        }
        let pc0 = self.pc;
        let hi = self.mem[self.pc as usize] as u16;
        let lo = self.mem[self.pc as usize + 1] as u16;
        let op = (hi << 8u16) | lo;
        self.pc = self.pc + 2;
        let ghost vf = with_pc(v0, (v0.pc + 2) as u16);
        proof {
            assert(self@ =~= vf);
            assert(op == op_at(v0));
            assert(step(v0, rnd) == exec_op(pc0, vf, op, rnd));
        }
        let a = op >> 12u16;
        let b = (op >> 8u16) & 0xF;
        let c = (op >> 4u16) & 0xF;
        let d = op & 0xF;
        proof {
            assert((op >> 8u16) & 0xF < 16 && (op >> 4u16) & 0xF < 16 && (op & 0xF) < 16 && (op
                & 0xFFF) < 4096) by (bit_vector);
        }
        let x = b as usize;
        let y = c as usize;
        let nn = (op & 0xFF) as u8;
        let nnn = op & 0xFFF;
        let rx = self.registers[x];
        let ry = self.registers[y];
        if op == 0x0000 {
            // no-op
        } else if op == 0x00E0 {
            // clear display
            self.screen = filled(NUM_PIXELS, false);
            proof {
                assert(self@ =~= (MachineView {
                    screen: Seq::new(NUM_PIXELS as nat, |i: int| false),
                    ..vf
                }));
            }
        } else if op == 0x00EE {
            // return from subroutine
            if self.sp == 0 {
                self.pc = pc0;
                proof {
                    assert(self@ =~= v0);
                }
                return Err(Fault::StackUnderflow { pc: pc0 });
            }
            let addr = self.pop();
            self.pc = addr;
            proof {
                assert(self@ =~= (MachineView {
                    pc: vf.stack.last(),
                    stack: vf.stack.drop_last(),
                    ..vf
                }));
            }
        } else if a == 1 {
            // jump NNN
            self.pc = nnn;
        } else if a == 2 {
            // call NNN
            if self.sp as usize >= STACK_SIZE {
                self.pc = pc0;
                proof {
                    assert(self@ =~= v0);
                }
                return Err(Fault::StackOverflow { pc: pc0 });
            }
            let ret = self.pc;
            self.push(ret);
            self.pc = nnn;
            proof {
                assert(self@ =~= (MachineView { pc: nnn, stack: vf.stack.push(vf.pc), ..vf }));
            }
        } else if a == 3 {
            // skip if Vx == NN
            if rx == nn {
                self.pc = self.pc + 2;
            }
        } else if a == 4 {
            // skip if Vx != NN
            if rx != nn {
                self.pc = self.pc + 2;
            }
        } else if a == 5 && d == 0 {
            // skip if Vx == Vy
            if rx == ry {
                self.pc = self.pc + 2;
            }
        } else if a == 6 {
            // Vx := NN
            self.registers.set(x, nn);
        } else if a == 7 {
            // Vx := Vx + NN, wrapping, flag untouched
            let sum: u16 = rx as u16 + nn as u16;
            self.registers.set(x, (sum % 256) as u8);
        } else if a == 8 && d == 0 {
            // Vx := Vy
            self.registers.set(x, ry);
        } else if a == 8 && d == 1 {
            // Vx := Vx | Vy
            self.registers.set(x, rx | ry);
        } else if a == 8 && d == 2 {
            // Vx := Vx & Vy
            self.registers.set(x, rx & ry);
        } else if a == 8 && d == 3 {
            // Vx := Vx ^ Vy
            self.registers.set(x, rx ^ ry);
        } else if a == 8 && d == 4 {
            // Vx := Vx + Vy wrapping; flag := carry
            let sum: u16 = rx as u16 + ry as u16;
            self.registers.set(x, (sum % 256) as u8);
            self.registers.set(15, if sum > 255 { 1 } else { 0 });
        } else if a == 8 && d == 5 {
            // Vx := Vx - Vy wrapping; flag := 1 iff no borrow
            let val: u8 = if rx >= ry {
                rx - ry
            } else {
                (rx as u16 + 256 - ry as u16) as u8
            };
            self.registers.set(x, val);
            self.registers.set(15, if rx >= ry { 1 } else { 0 });
        } else if a == 8 && d == 6 {
            // flag := low bit of Vx, then Vx := Vx >> 1
            self.registers.set(15, rx & 1);
            let cur = self.registers[x];
            self.registers.set(x, cur >> 1u8);
        } else if a == 8 && d == 7 {
            // flag := 1 iff no borrow, then Vx := Vy - Vx wrapping
            let val: u8 = if ry >= rx {
                ry - rx
            } else {
                (ry as u16 + 256 - rx as u16) as u8
            };
            self.registers.set(15, if ry >= rx { 1 } else { 0 });
            self.registers.set(x, val);
        } else if a == 8 && d == 0xE {
            // flag := high bit of Vx, then Vx := Vx << 1 truncated
            self.registers.set(15, (rx >> 7u8) & 1);
            let cur = self.registers[x];
            self.registers.set(x, cur << 1u8);
        } else if a == 9 && d == 0 {
            // skip if Vx != Vy
            if rx != ry {
                self.pc = self.pc + 2;
            }
        } else if a == 0xA {
            // index := NNN
            self.ip = nnn;
        } else if a == 0xB {
            // jump to NNN + V0
            let base = self.registers[0];
            self.pc = base as u16 + nnn;
        } else if a == 0xC {
            // Vx := random byte & NN
            self.registers.set(x, rnd & nn);
        } else if a == 0xD {
            // draw sprite; flag := collision
            let n = d as usize;
            if n > 0 && self.ip as usize + n > MEMORY_SIZE {
                self.pc = pc0;
                proof {
                    assert(self@ =~= v0);
                }
                return Err(Fault::MemoryOutOfBounds { pc: pc0 });
            }
            let collision = self.draw_sprite(rx, ry, d as u8);
            self.registers.set(15, if collision { 1 } else { 0 });
            proof {
                assert(self@ =~= (MachineView {
                    screen: draw_screen(
                        vf.screen, vf.mem, vf.ip as int, rx as int, ry as int, d as int,
                    ),
                    regs: vf.regs.update(
                        15,
                        if draw_collision(
                            vf.screen, vf.mem, vf.ip as int, rx as int, ry as int, d as int,
                        ) {
                            1u8
                        } else {
                            0u8
                        },
                    ),
                    ..vf
                }));
            }
        } else if a == 0xE && c == 9 && d == 0xE {
            // skip if the key numbered by the low nibble of Vx is pressed
            let key = (rx & 0xF) as usize;
            proof {
                assert(rx & 0xF < 16) by (bit_vector);
            }
            if self.keys[key] {
                self.pc = self.pc + 2;
            }
        } else if a == 0xE && c == 0xA && d == 1 {
            // skip if that key is not pressed
            let key = (rx & 0xF) as usize;
            proof {
                assert(rx & 0xF < 16) by (bit_vector);
            }
            if !self.keys[key] {
                self.pc = self.pc + 2;
            }
        } else if a == 0xF && c == 0 && d == 7 {
            // Vx := delay timer
            let t = self.delay_timer;
            self.registers.set(x, t);
        } else if a == 0xF && c == 0 && d == 0xA {
            // block for key: store first pressed key, else refetch this word
            match self.find_first_key() {
                Some(k) => {
                    self.registers.set(x, k);
                },
                None => {
                    self.pc = pc0;
                },
            }
        } else if a == 0xF && c == 1 && d == 5 {
            // delay timer := Vx
            self.delay_timer = rx;
        } else if a == 0xF && c == 1 && d == 8 {
            // sound timer := Vx
            self.sound_timer = rx;
        } else if a == 0xF && c == 1 && d == 0xE {
            // index := index + Vx, wrapping at 16 bits, flag untouched
            let sum: u32 = self.ip as u32 + rx as u32;
            self.ip = (sum % 0x10000) as u16;
        } else if a == 0xF && c == 2 && d == 9 {
            // index := address of the glyph for Vx
            self.ip = rx as u16 * 5;
        } else if a == 0xF && c == 3 && d == 3 {
            // store the decimal digits of Vx at index, index+1, index+2
            if self.ip as usize + 2 >= MEMORY_SIZE {
                self.pc = pc0;
                proof {
                    assert(self@ =~= v0);
                }
                return Err(Fault::MemoryOutOfBounds { pc: pc0 });
            }
            let ipu = self.ip as usize;
            self.mem.set(ipu, rx / 100);
            self.mem.set(ipu + 1, (rx / 10) % 10);
            self.mem.set(ipu + 2, rx % 10);
        } else if a == 0xF && c == 5 && d == 5 {
            // store V0..=Vx at index onward; index unchanged
            if self.ip as usize + x >= MEMORY_SIZE {
                self.pc = pc0;
                proof {
                    assert(self@ =~= v0);
                }
                return Err(Fault::MemoryOutOfBounds { pc: pc0 });
            }
            self.store_regs(x);
        } else if a == 0xF && c == 6 && d == 5 {
            // load V0..=Vx from index onward; index unchanged
            if self.ip as usize + x >= MEMORY_SIZE {
                self.pc = pc0;
                proof {
                    assert(self@ =~= v0);
                }
                return Err(Fault::MemoryOutOfBounds { pc: pc0 });
            }
            self.load_regs(x);
        } else {
            // not one of the 35 defined opcodes
            self.pc = pc0;
            proof {
                assert(self@ =~= v0);
            }
            return Err(Fault::UnknownOpcode { pc: pc0, op });
        }
        proof {
            assert(step(v0, rnd) == Ok::<MachineView, Fault>(self@));
        }
        Ok(())
    }

    /// Advances the machine by one instruction, drawing the byte for the
    /// masked random instruction from the random generator.  Every
    /// successful step is `step` of the old state for some byte; a faulting
    /// step reports the same fault for every byte and changes nothing.
    pub fn tick(&mut self) -> (r: Result<(), Fault>)
        requires
            old(self).wf(),
        ensures
            final(self).wf(),
            match r {
                Ok(_) => exists|b: u8|
                    #[trigger] step(old(self)@, b) == Ok::<MachineView, Fault>(final(self)@),
                Err(f) => final(self)@ == old(self)@ && forall|b: u8|
                    #[trigger] step(old(self)@, b) == Err::<MachineView, Fault>(f),
            },
    {
        let ghost v0 = self@;
        let rnd = random_byte();
        let r = self.step_with(rnd);
        proof {
            match r {
                Ok(_) => {
                    assert(step(v0, rnd) == Ok::<MachineView, Fault>(self@));
                },
                Err(f) => {
                    assert forall|b: u8| #[trigger] step(v0, b) == Err::<MachineView, Fault>(
                        f,
                    ) by {
                        assert(step(v0, rnd) == Err::<MachineView, Fault>(f));
                    }
                },
            }
        }
        r
    }
}

} // verus!
