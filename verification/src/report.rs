//! What the debugger tells the user. Each value stands for one message; the
//! program that embeds this crate gives it its words.
use vstd::prelude::*;
use nix::errno::Errno;
use crate::dwarf_functionality::line_report;
use crate::format::{shown, FormatError};
use crate::registers::Register;

verus! {

/// A command that the debugger could not carry out as it was typed.
#[derive(Clone, Copy, Debug, PartialEq, Eq)]
pub enum complaint {
    /// The first word names no command.
    InvalidCommand,
    /// `break` came without a second word.
    BreakpointArgumentMissing,
    /// `break enable`, `disable` or `delete` came without an index.
    IndexMissing,
    /// The index is no number.
    InvalidIndex,
    /// No live breakpoint has the index.
    NoSuchBreakpoint,
    /// The address of the new breakpoint is no number.
    InvalidBreakpointAddress,
    /// A live breakpoint already stands at the address.
    DuplicateBreakpoint,
    /// The value for the register is no number.
    InvalidRegisterValue,
    /// The name is that of no register.
    InvalidRegisterName,
    /// `memory` came with too few words.
    MemoryUsage,
    /// The address is no number.
    NoAddress,
    /// The value for the memory is no number.
    InvalidMemoryValue,
    /// `restore` came without a file.
    FileMissing,
    /// The address-space map shows no stack to restore into.
    StackNotRestored,
    /// The address-space map shows no heap to restore into.
    HeapNotRestored,
    /// The snapshot does not hold every register, or not the program
    /// counter at which to re-enter the child.
    SnapshotIncomplete,
    /// The reply was not one that answers the request.
    UnexpectedReply,
}

/// What the debugger was doing when a tracing operation failed.
#[derive(Clone, Copy, Debug, PartialEq, Eq)]
pub enum attempt {
    /// Reading the registers.
    Registers,
    /// Writing a register.
    RegisterWrite,
    /// Reading memory to show it.
    MemoryRead,
    /// Reading memory to prepare a write.
    MemoryReadForWrite,
    /// Writing memory.
    MemoryWrite,
    /// Reading the word that a breakpoint patches.
    Breakpoint,
    /// Letting the child run, or waiting for it.
    Resume,
}

/// One message to the user.
#[derive(Clone, Copy, Debug, PartialEq, Eq)]
pub enum report {
    Complaint(complaint),
    /// The format specifier was rejected.
    Format(FormatError),
    /// A tracing operation failed with an error of the operating system.
    Failure(attempt, Errno),
    /// A file could not be read or written.
    FileFailure(i32),
    /// The heading of the list of breakpoints.
    BreakpointHeader,
    /// A live breakpoint: its index, whether it is armed, its address.
    BreakpointRow(usize, bool, usize),
    /// The value of a register as it is to be shown.
    RegisterValue(Register, shown),
    /// The word at an address as it is to be shown.
    MemoryValue(usize, shown),
    /// The index of the debugging entry of the subprogram that was found.
    Subprogram(usize),
    /// A row of the listing of the line table.
    Line(line_report),
}

} // verus!
