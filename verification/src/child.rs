//! What the debugger shares with the layer that traces the child: the
//! identifier of the child and the error of a tracing operation, both of
//! which it only hands on, and the requests and replies that pass between
//! the two.
use vstd::prelude::*;
use nix::errno::Errno;
use crate::registers::RegisterBank;
use crate::report::report;
use crate::trace::{trace_view, Trace};

verus! {

/// `nix::unistd::Pid`, the identifier of a process. Nothing is known of its
/// value here; the debugger stores it and hands it back.
#[verifier::external_type_specification]
#[verifier::external_body]
pub struct ExPid(nix::unistd::Pid);

/// `nix::errno::Errno`, the error code of a failed system call. Nothing is
/// known of its value here; the debugger hands it on to whoever reports it.
#[verifier::external_type_specification]
#[verifier::external_body]
pub struct ExErrno(nix::errno::Errno);

/// What the debugger asks of the layer that traces the child. Every
/// request is answered by one reply.
#[derive(Debug, PartialEq, Eq)]
pub enum trace_request {
    /// Show the prompt and read the next command line.
    ReadLine,
    /// Wait until the child stops.
    Wait,
    /// Let the child run.
    Cont,
    /// Let the child execute one instruction.
    Step,
    /// Read the registers of the child.
    GetRegs,
    /// Write the registers of the child.
    SetRegs(RegisterBank),
    /// Read the word at an address of the child.
    ReadWord(usize),
    /// Write a word at an address of the child.
    WriteWord(usize, u64),
    /// Show the signal that stopped the child.
    ShowSignal,
    /// Read the address-space map of the child, which is the file at a path.
    ReadMaps(Vec<char>),
    /// Write a snapshot to the file at a path.
    SaveTrace(Vec<char>, Trace),
    /// Read the snapshot in the file at a path.
    LoadTrace(Vec<char>),
    /// Tell the user something.
    Say(report),
    /// A write into the child failed half way through a patch: the session
    /// cannot go on.
    Fatal(Errno),
    /// The session is over; `true` asks for the child to be started anew.
    Return(bool),
}

/// What the layer that traces the child answers.
#[derive(Debug, PartialEq, Eq)]
pub enum trace_reply {
    /// The command line that was read.
    Line(String),
    /// The request was carried out and has nothing to hand back.
    Done,
    /// The registers that were read.
    Regs(RegisterBank),
    /// The word that was read.
    Word(u64),
    /// The address-space map that was read.
    Maps(String),
    /// The snapshot that was read.
    Loaded(Trace),
    /// The tracing operation failed.
    Failed(Errno),
    /// The file could not be read or written; the code is that of the
    /// operating system.
    FileFailed(i32),
}

/// A request, with views in place of the vectors it holds.
pub enum request_view {
    ReadLine,
    Wait,
    Cont,
    Step,
    GetRegs,
    SetRegs(RegisterBank),
    ReadWord(usize),
    WriteWord(usize, u64),
    ShowSignal,
    ReadMaps(Seq<char>),
    SaveTrace(Seq<char>, trace_view),
    LoadTrace(Seq<char>),
    Say(report),
    Fatal(Errno),
    Return(bool),
}

/// A reply, with views in place of the strings and vectors it holds.
pub enum reply_view {
    Line(Seq<char>),
    Done,
    Regs(RegisterBank),
    Word(u64),
    Maps(Seq<char>),
    Loaded(trace_view),
    Failed(Errno),
    FileFailed(i32),
}

impl View for trace_request {
    type V = request_view;

    open spec fn view(&self) -> request_view {
        match *self {
            trace_request::ReadLine => request_view::ReadLine,
            trace_request::Wait => request_view::Wait,
            trace_request::Cont => request_view::Cont,
            trace_request::Step => request_view::Step,
            trace_request::GetRegs => request_view::GetRegs,
            trace_request::SetRegs(bank) => request_view::SetRegs(bank),
            trace_request::ReadWord(addr) => request_view::ReadWord(addr),
            trace_request::WriteWord(addr, word) => request_view::WriteWord(addr, word),
            trace_request::ShowSignal => request_view::ShowSignal,
            trace_request::ReadMaps(path) => request_view::ReadMaps(path@),
            trace_request::SaveTrace(path, trace) => request_view::SaveTrace(path@, trace@),
            trace_request::LoadTrace(path) => request_view::LoadTrace(path@),
            trace_request::Say(what) => request_view::Say(what),
            trace_request::Fatal(e) => request_view::Fatal(e),
            trace_request::Return(again) => request_view::Return(again),
        }
    }
}

impl View for trace_reply {
    type V = reply_view;

    open spec fn view(&self) -> reply_view {
        match *self {
            trace_reply::Line(text) => reply_view::Line(text@),
            trace_reply::Done => reply_view::Done,
            trace_reply::Regs(bank) => reply_view::Regs(bank),
            trace_reply::Word(word) => reply_view::Word(word),
            trace_reply::Maps(text) => reply_view::Maps(text@),
            trace_reply::Loaded(trace) => reply_view::Loaded(trace@),
            trace_reply::Failed(e) => reply_view::Failed(e),
            trace_reply::FileFailed(code) => reply_view::FileFailed(code),
        }
    }
}

} // verus!
