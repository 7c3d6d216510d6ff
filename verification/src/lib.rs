//! A verified interpreter core for the classic 1970s 8-bit virtual machine
//! with a 64 x 32 monochrome display: 4096 bytes of memory with a built-in
//! font, sixteen 8-bit registers, a 16-entry call stack, a delay timer, a
//! 16-key keypad image and XOR sprite drawing with collision reporting.
//!
//! The whole instruction set is specified by the decode/execute relation in
//! [`machine`], and the executable engine in [`cpu`] is proved to follow it
//! exactly: each step either advances the machine as the relation
//! prescribes or reports an error and leaves the machine untouched. The
//! framebuffer and its wraparound XOR draw live in [`display`], and
//! [`laws`] states and proves the headline properties: wraparound
//! arithmetic, carry and borrow flags, call/return round trips, draw
//! idempotence, exact collision reporting and BCD decomposition.
//!
//! The host is expected to drive the machine once per frame: refresh the
//! keypad, run one or more cycles, tick the timer at its own fixed rate,
//! and read the framebuffer and the tone trigger back out.

use vstd::prelude::*;

pub mod cpu;
pub mod display;
pub mod laws;
pub mod machine;

verus! {

} // verus!
