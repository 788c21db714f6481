//! A verified CHIP-8 virtual machine: a fetch-decode-execute interpreter over
//! 16 8-bit registers, 4 KiB of memory, a 16-level call stack, two countdown
//! timers, a 64x32 monochrome framebuffer and a 16-key keypad.
//!
//! The machine state and its constructors live in [`machine`]; the semantics
//! of each instruction is given by a spec-level step function in
//! [`instructions`] and [`sprite`], against which the executable handlers are
//! verified; [`step`] assembles them into the `cycle` transition; [`laws`]
//! proves properties that relate several instructions.

pub mod machine;
pub mod instructions;
pub mod sprite;
pub mod step;
pub mod laws;
