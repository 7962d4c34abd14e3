//! A verified CHIP-8 virtual machine core.
//!
//! The machine owns all architectural state (memory, registers, program
//! counter, call stack, timers, key latch, framebuffer) and advances it one
//! instruction at a time.  The transition relation is written down once as a
//! spec function (`semantics::step`) and the executable interpreter is proved
//! to implement it exactly.

use vstd::prelude::*;

pub mod font;
pub mod laws;
pub mod machine;
pub mod model;
mod rng;
pub mod semantics;
pub mod sprite;

pub use machine::Processor;
pub use model::Fault;

verus! {

/// Width of the monochrome framebuffer in pixels.
pub const SCREEN_WIDTH: usize = 64;

/// Height of the monochrome framebuffer in pixels.
pub const SCREEN_HEIGHT: usize = 32;

} // verus!
