//! Core of an interactive debugger for a traced x86-64 child process.
//!
//! The crate holds the decisions of the debugger: how a format specifier is
//! read, how a breakpoint patches a word of code, which breakpoints are live,
//! how the address-space map is read, what a snapshot holds, and which
//! tracing operation a command asks for next. The tracing operations
//! themselves are performed by the program that embeds this crate.
#![allow(non_camel_case_types)]
#![allow(non_snake_case)]

pub mod text;
pub mod format;
pub mod registers;
pub mod misc;
pub mod report;
pub mod child;
pub mod breakpoint;
pub mod trace;
pub mod dwarf_functionality;
pub mod debugger;
pub mod session;
pub mod supervisor;
pub mod memory;
pub mod protocol;
