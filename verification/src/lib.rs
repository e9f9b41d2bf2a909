//! The core of a CHIP-8 / Super-CHIP virtual machine.
//!
//! The machine runs programs made of 16-bit instruction words. This crate
//! holds the part of an interpreter that decides what such a program does:
//!
//! - [`opcode`]: the instruction word, its bit fields and the encoder;
//! - [`instructions`]: the instruction set and the decoder;
//! - [`memory`]: the 4096-byte store;
//! - [`register`]: the registers, the timers and the call stack;
//! - [`display`] and [`keypad`]: the screen that programs draw on and the
//!   keys that they read, as plain data;
//! - [`font`]: the glyphs of the hexadecimal digits;
//! - [`engine`]: the fetch-decode-execute cycle and what each instruction
//!   means;
//! - [`laws`]: what holds of every execution.
//!
//! The crate opens no file, draws no window, makes no sound and keeps no
//! clock. A front end loads a program, steps the engine, ticks its timers
//! sixty times a second, shows the [`display::Display`] and keeps the
//! [`keypad::Keypad`] up to date.
//!
//! Every function is verified against its contract. The contracts speak of
//! the machine as plain values: a word is a number, the store a sequence of
//! bytes, the display rows of pixels, and one step a function from one
//! machine to the next.

pub mod display;
pub mod engine;
pub mod error;
pub mod font;
pub mod instructions;
pub mod keypad;
pub mod laws;
pub mod memory;
pub mod opcode;
pub mod register;
