//! The mathematical model of the machine state.
//!
//! Every contract in this crate speaks about `MachineView`, an abstract
//! snapshot of the architectural state: the program counter, the 4096 bytes
//! of memory, the 64x32 framebuffer, the sixteen registers, the index
//! register, the active call-stack entries, the key latch and the two timers.

use vstd::prelude::*;

verus! {

/// Number of bytes of machine memory.
pub const MEMORY_SIZE: usize = 4096;

/// Number of general-purpose registers.
pub const NUM_REGS: usize = 16;

/// Capacity of the call stack.
pub const STACK_SIZE: usize = 16;

/// Number of keys on the keypad.
pub const NUM_KEYS: usize = 16;

/// Number of framebuffer pixels (64 wide, 32 high, row-major).
pub const NUM_PIXELS: usize = 2048;

/// Address at which loaded programs begin execution.
pub const ENTRY_POINT_ADDR: u16 = 0x200;

/// Abstract snapshot of the whole machine state.
#[verifier::ext_equal]
pub ghost struct MachineView {
    /// Program counter: address of the next instruction to fetch.
    pub pc: u16,
    /// The 4096 memory bytes.
    pub mem: Seq<u8>,
    /// The framebuffer, pixel `(x, y)` at index `x + 64 * y`.
    pub screen: Seq<bool>,
    /// The sixteen 8-bit registers; register 15 doubles as the flag register.
    pub regs: Seq<u8>,
    /// The 16-bit index register.
    pub ip: u16,
    /// The active call-stack entries, oldest first.
    pub stack: Seq<u16>,
    /// The sixteen key latch flags.
    pub keys: Seq<bool>,
    /// The delay timer.
    pub delay: u8,
    /// The sound timer; nonzero means a tone should be playing.
    pub sound: u8,
}

/// Dimensions a well-formed machine state always has.
pub open spec fn wf_view(v: MachineView) -> bool {
    &&& v.mem.len() == MEMORY_SIZE
    &&& v.screen.len() == NUM_PIXELS
    &&& v.regs.len() == NUM_REGS
    &&& v.keys.len() == NUM_KEYS
    &&& v.stack.len() <= STACK_SIZE
}

/// A fatal condition detected while stepping the machine.
///
/// Each variant reports the program counter of the offending instruction,
/// i.e. the address it was fetched from.  A step that faults leaves the
/// machine exactly as it was.
#[derive(Clone, Copy, Debug, PartialEq, Eq, Structural)]
pub enum Fault {
    /// The program counter points outside memory, so no instruction word
    /// can be fetched.
    PcOutOfBounds { pc: u16 },
    /// A return was executed with an empty call stack.
    StackUnderflow { pc: u16 },
    /// A call was executed with the call stack already holding 16 entries.
    StackOverflow { pc: u16 },
    /// An instruction addressed memory beyond its 4096 bytes.
    MemoryOutOfBounds { pc: u16 },
    /// The instruction word matches none of the 35 defined opcodes.
    UnknownOpcode { pc: u16, op: u16 },
}

} // verus!
