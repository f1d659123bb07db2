//! The debugger as a state machine: what it asks next, and what a reply
//! makes of its state. The functions here are the meaning of
//! `Debugger::run` and `Debugger::resume`; the laws that follow from them
//! stand in `protocol`.
use vstd::prelude::*;
use nix::errno::Errno;
use nix::unistd::Pid;
use crate::breakpoint::{after_update, breakpoint, holds_addr, live_at, with_low_byte, TRAP_BYTE};
use crate::child::{reply_view, request_view};
use crate::debugger::{
    as_address, command_path, command_plan, command_verdict, continue_plan, dbg_cmd, op, say,
};
use crate::dwarf_functionality::debug_info;
use crate::format::{overlaid, shown, shown_as};
use crate::registers::{bank_mapping, dump_order, mapping_bank, Register, RegisterBank};
use crate::report::{attempt, complaint, report};
use crate::trace::{
    addr_mapping, capped_sum, has_kind, parse_maps, snapshot_file, trace_view, words_in,
    WORD_BYTES,
};

verus! {

/// The state of a session.
pub struct session {
    /// The child.
    pub pid: Pid,
    /// The slots of the table of breakpoints.
    pub table: Seq<Option<breakpoint>>,
    /// The snapshot that was last captured or loaded.
    pub trace: trace_view,
    /// Whether the snapshot is whole.
    pub trace_enabled: bool,
    /// The steps still to take, the next one first.
    pub script: Seq<op>,
    /// The step whose request is waiting for its reply.
    pub current: op,
    /// The breakpoint at the re-entry program counter of a restore.
    pub reentry: Option<breakpoint>,
    /// The file named by the last `restore` command.
    pub path: Seq<char>,
    /// The file that shows the address-space map of the child.
    pub maps_file: Seq<char>,
}

/// A breakpoint that has not been armed yet.
pub open spec fn fresh(pid: Pid, addr: usize) -> breakpoint {
    breakpoint { saved_data: None, addr, enabled: false, pid }
}

/// The words of the stack (`true`) or of the heap of a snapshot.
pub open spec fn words_of(trace: trace_view, stack: bool) -> Seq<u64> {
    if stack {
        trace.stack
    } else {
        trace.heap
    }
}

/// Whether every register is bound.
pub open spec fn all_registers(regs: Map<Register, u64>) -> bool {
    forall|r: Register| regs.contains_key(r)
}

/// The request that a step makes in a state; `None` where the step has
/// nothing to ask and is passed over: a breakpoint step on a slot that is
/// not live, a capture that has reached the end of its region, a
/// write-back that has reached the end of its region or of the words of
/// the snapshot, the disarming of a re-entry breakpoint that is not there.
pub open spec fn request_of(s: session, step: op) -> Option<request_view> {
    match step {
        op::Prompt => Some(request_view::ReadLine),
        op::Quit(again) => Some(request_view::Return(again)),
        op::Halt(e) => Some(request_view::Fatal(e)),
        op::Say(what) => Some(request_view::Say(what)),
        op::Continue => Some(request_view::GetRegs),
        op::Step => Some(request_view::Step),
        op::Wait => Some(request_view::Wait),
        op::Cont => Some(request_view::Cont),
        op::ShowSignal => Some(request_view::ShowSignal),
        op::Arm(idx) => slot_request(s, idx),
        op::Disarm(idx) => slot_request(s, idx),
        op::Delete(idx) => slot_request(s, idx),
        op::Create(addr) => Some(request_view::ReadWord(addr)),
        op::Write(addr, word) => Some(request_view::WriteWord(addr, word)),
        op::Store(addr, word) => Some(request_view::WriteWord(addr, word)),
        op::WriteReg(_, _, _) => Some(request_view::GetRegs),
        op::PutRegs(bank) => Some(request_view::SetRegs(bank)),
        op::ShowReg(_, _) => Some(request_view::GetRegs),
        op::DumpRegs => Some(request_view::GetRegs),
        op::ReadMem(addr, _) => Some(request_view::ReadWord(addr)),
        op::WriteMem(addr, _, _) => Some(request_view::ReadWord(addr)),
        op::Snapshot => Some(request_view::GetRegs),
        op::CaptureMaps => Some(request_view::ReadMaps(s.maps_file)),
        op::Capture(region, i) => if i < region.spec_words() {
            Some(request_view::ReadWord((region.spec_start() + i * WORD_BYTES) as usize))
        } else {
            None
        },
        op::Save => Some(request_view::SaveTrace(snapshot_file(), s.trace)),
        op::Restore(_) => Some(request_view::LoadTrace(s.path)),
        op::RestoreMaps(_) => Some(request_view::ReadMaps(s.maps_file)),
        op::Poke(stack, addr, i, end) => if i < end && i < words_of(s.trace, stack).len() {
            Some(request_view::WriteWord(addr, words_of(s.trace, stack)[i as int]))
        } else {
            None
        },
        op::ArmReentry(pc) => Some(request_view::ReadWord(pc)),
        op::DisarmReentry => match s.reentry {
            Some(bp) => Some(request_view::ReadWord(bp.addr)),
            None => None,
        },
        op::RestoreRegs => if all_registers(s.trace.regs) {
            Some(request_view::SetRegs(mapping_bank(s.trace.regs)))
        } else {
            Some(request_view::Say(report::Complaint(complaint::SnapshotIncomplete)))
        },
    }
}

/// The request of a step on a slot of the table: the word at the address
/// of its breakpoint is read.
pub open spec fn slot_request(s: session, idx: usize) -> Option<request_view> {
    if live_at(s.table, idx as int) {
        Some(request_view::ReadWord(s.table[idx as int]->0.addr))
    } else {
        None
    }
}

/// The next request: that of the first step of the script that has one.
/// The steps before it are dropped. Where no step is left, the next
/// command is read.
pub open spec fn issue(s: session) -> (session, request_view)
    decreases s.script.len(),
{
    if s.script.len() == 0 {
        (session { current: op::Prompt, ..s }, request_view::ReadLine)
    } else {
        let step = s.script[0];
        let rest = session { script: s.script.subrange(1, s.script.len() as int), ..s };
        match request_of(s, step) {
            Some(request) => (session { current: step, ..rest }, request),
            None => issue(rest),
        }
    }
}

/// The state with some steps put before the rest of the script.
pub open spec fn first(s: session, steps: Seq<op>) -> session {
    session { script: steps + s.script, ..s }
}

/// The state with the script given up for one step.
pub open spec fn only(s: session, step: op) -> session {
    session { script: seq![step], ..s }
}

/// The state after a tracing operation has failed: the rest of the script
/// is given up and the failure is told.
pub open spec fn failed(s: session, what: attempt, e: Errno) -> session {
    only(s, op::Say(report::Failure(what, e)))
}

/// The state after a reply that does not answer the request.
pub open spec fn confused(s: session) -> session {
    only(s, op::Say(report::Complaint(complaint::UnexpectedReply)))
}

/// The state after a command line has been read.
pub open spec fn after_line(s: session, line: Seq<char>, dwarf_info: debug_info) -> session {
    match s.current {
        op::Prompt => {
            let planned = session {
                script: command_plan(s.table, line, dwarf_info) + s.script,
                path: match command_path(line) {
                    Some(path) => path,
                    None => s.path,
                },
                ..s
            };
            match command_verdict(line) {
                dbg_cmd::Exit => only(planned, op::Quit(false)),
                dbg_cmd::Restart => only(planned, op::Quit(true)),
                dbg_cmd::Continue => planned,
            }
        },
        _ => confused(s),
    }
}

/// The state after a request has been carried out with nothing to hand back.
pub open spec fn after_done(s: session) -> session {
    match s.current {
        op::Step => s,
        op::Wait => s,
        op::Cont => s,
        op::ShowSignal => s,
        op::Write(_, _) => s,
        op::Store(_, _) => s,
        op::PutRegs(_) => s,
        op::RestoreRegs => s,
        op::Save => session { trace_enabled: true, ..s },
        op::Poke(stack, addr, i, end) => if i < usize::MAX && addr + WORD_BYTES <= usize::MAX {
            first(s, seq![op::Poke(stack, (addr + WORD_BYTES) as usize, (i + 1) as usize, end)])
        } else {
            s
        },
        _ => confused(s),
    }
}

/// The steps that show every register of a bank in hexadecimal.
pub open spec fn dump_plan(bank: RegisterBank) -> Seq<op> {
    dump_order().map_values(
        |reg: Register| op::Say(report::RegisterValue(reg, shown::Hex(bank.spec_get(reg)))),
    )
}

/// The state after the registers have been read.
pub open spec fn after_regs(s: session, bank: RegisterBank) -> session {
    match s.current {
        op::Continue => first(s, continue_plan(s.table, bank.rip)),
        op::WriteReg(reg, val, n_bytes) => first(
            s,
            seq![op::PutRegs(bank.spec_set(reg, overlaid(n_bytes, bank.spec_get(reg), val)))],
        ),
        op::ShowReg(reg, fmt) => first(
            s,
            seq![op::Say(report::RegisterValue(reg, shown_as(fmt, bank.spec_get(reg))))],
        ),
        op::DumpRegs => first(s, dump_plan(bank)),
        op::Snapshot => snapshot_begun(s, bank),
        _ => confused(s),
    }
}

/// The state after a snapshot has been begun with the registers of the
/// child: it holds the registers and no word yet, it is not whole, and the
/// next step finds the regions to capture.
pub open spec fn snapshot_begun(s: session, bank: RegisterBank) -> session {
    session {
        trace: trace_view { regs: bank_mapping(bank), stack: Seq::empty(), heap: Seq::empty() },
        trace_enabled: false,
        script: seq![op::CaptureMaps] + s.script,
        ..s
    }
}

/// The state after a snapshot has been handed over to be restored: it is
/// the snapshot of the session, and the next step finds the regions to
/// restore into.
pub open spec fn restore_begun(s: session, trace: trace_view, pc: usize) -> session {
    session { trace, trace_enabled: true, script: seq![op::RestoreMaps(pc)] + s.script, ..s }
}

/// The state after a word has been read.
pub open spec fn after_word(s: session, word: u64) -> session {
    match s.current {
        op::Arm(idx) => if live_at(s.table, idx as int) {
            let bp = s.table[idx as int]->0;
            session {
                table: after_update(s.table, idx as int, Some(bp.armed_over(word))),
                script: seq![op::Write(bp.addr, with_low_byte(word, TRAP_BYTE))] + s.script,
                ..s
            }
        } else {
            s
        },
        op::Disarm(idx) => if live_at(s.table, idx as int) {
            let bp = s.table[idx as int]->0;
            session {
                table: after_update(s.table, idx as int, Some(bp.disarmed())),
                script: seq![op::Write(bp.addr, bp.restored_word(word))] + s.script,
                ..s
            }
        } else {
            s
        },
        op::Delete(idx) => if live_at(s.table, idx as int) {
            let bp = s.table[idx as int]->0;
            session {
                table: after_update(s.table, idx as int, None),
                script: seq![op::Write(bp.addr, bp.restored_word(word))] + s.script,
                ..s
            }
        } else {
            s
        },
        op::Create(addr) => if holds_addr(s.table, addr) {
            s
        } else {
            session {
                table: s.table.push(Some(fresh(s.pid, addr).armed_over(word))),
                script: seq![op::Write(addr, with_low_byte(word, TRAP_BYTE))] + s.script,
                ..s
            }
        },
        op::ReadMem(addr, fmt) => first(
            s,
            seq![op::Say(report::MemoryValue(addr, shown_as(fmt, word)))],
        ),
        op::WriteMem(addr, val, fmt) => first(
            s,
            seq![op::Store(addr, overlaid(fmt.n_bytes, word, val))],
        ),
        op::Capture(region, i) => if i < usize::MAX {
            session {
                trace: with_captured(s.trace, region, word),
                script: seq![op::Capture(region, (i + 1) as usize)] + s.script,
                ..s
            }
        } else {
            s
        },
        op::ArmReentry(pc) => session {
            reentry: Some(fresh(s.pid, pc).armed_over(word)),
            script: seq![op::Write(pc, with_low_byte(word, TRAP_BYTE))] + s.script,
            ..s
        },
        op::DisarmReentry => match s.reentry {
            Some(bp) => session {
                reentry: None,
                script: seq![op::Write(bp.addr, bp.restored_word(word))] + s.script,
                ..s
            },
            None => s,
        },
        _ => confused(s),
    }
}

/// The steps that capture the regions of a snapshot, each from its first
/// word on, and then write the snapshot to its file.
pub open spec fn capture_plan(regions: Seq<addr_mapping>) -> Seq<op> {
    regions.map_values(|region: addr_mapping| op::Capture(region, 0)) + seq![op::Save]
}

/// The steps that write words of a snapshot back into the regions of a
/// kind (`true` for the stack), in the order of the regions: the words of
/// the snapshot are dealt out to the regions, each region taking as many
/// as it is words long.
pub open spec fn poke_steps(regions: Seq<addr_mapping>, stack: bool) -> Seq<op>
    decreases regions.len(),
{
    if regions.len() == 0 {
        Seq::empty()
    } else {
        let front = regions.drop_last();
        let region = regions.last();
        if (region is Stack) == stack {
            poke_steps(front, stack).push(
                op::Poke(
                    stack,
                    region.spec_start(),
                    words_in(front, stack),
                    capped_sum(words_in(front, stack), region.spec_words()),
                ),
            )
        } else {
            poke_steps(front, stack)
        }
    }
}

/// The steps that write the words of the stack (`true`) or of the heap of
/// a snapshot back, or say that the child has no region of the kind.
pub open spec fn poke_plan(regions: Seq<addr_mapping>, stack: bool) -> Seq<op> {
    if has_kind(regions, stack) {
        poke_steps(regions, stack)
    } else if stack {
        say(complaint::StackNotRestored)
    } else {
        say(complaint::HeapNotRestored)
    }
}

/// The steps that bring a restored child to the re-entry program counter
/// and put its registers back.
pub open spec fn reentry_plan(pc: usize) -> Seq<op> {
    seq![op::ArmReentry(pc), op::Cont, op::Wait, op::DisarmReentry, op::RestoreRegs]
}

/// The state after the address-space map has been read.
pub open spec fn after_maps(s: session, text: Seq<char>) -> session {
    match s.current {
        op::CaptureMaps => first(s, capture_plan(parse_maps(text))),
        op::RestoreMaps(pc) => first(
            s,
            poke_plan(parse_maps(text), true) + poke_plan(parse_maps(text), false) + reentry_plan(
                pc,
            ),
        ),
        _ => confused(s),
    }
}

/// The re-entry program counter of a restore: the one that the command
/// gave, or else the program counter that the snapshot has captured, where
/// it has captured one that is an address.
pub open spec fn reentry_of(given: Option<usize>, trace: trace_view) -> Option<usize> {
    match given {
        Some(pc) => Some(pc),
        None => if trace.regs.contains_key(Register::Rip) {
            as_address(trace.regs[Register::Rip])
        } else {
            None
        },
    }
}

/// The state after a snapshot has been read from its file. Where the
/// command gave no re-entry program counter and the snapshot holds none,
/// the snapshot is not restored.
pub open spec fn after_loaded(s: session, trace: trace_view) -> session {
    match s.current {
        op::Restore(given) => match reentry_of(given, trace) {
            Some(pc) => restore_begun(s, trace, pc),
            None => only(s, op::Say(report::Complaint(complaint::SnapshotIncomplete))),
        },
        _ => confused(s),
    }
}

/// The state after a tracing operation has failed. A write that fails
/// while a breakpoint is patched or restored ends the session; any other
/// failure ends the command.
pub open spec fn after_failed(s: session, e: Errno) -> session {
    match s.current {
        op::Continue => failed(s, attempt::Registers, e),
        op::ShowReg(_, _) => failed(s, attempt::Registers, e),
        op::DumpRegs => failed(s, attempt::Registers, e),
        op::Snapshot => failed(s, attempt::Registers, e),
        op::WriteReg(_, _, _) => failed(s, attempt::RegisterWrite, e),
        op::PutRegs(_) => failed(s, attempt::RegisterWrite, e),
        op::RestoreRegs => failed(s, attempt::RegisterWrite, e),
        op::ReadMem(_, _) => failed(s, attempt::MemoryRead, e),
        op::Capture(_, _) => failed(s, attempt::MemoryRead, e),
        op::WriteMem(_, _, _) => failed(s, attempt::MemoryReadForWrite, e),
        op::Arm(_) => failed(s, attempt::Breakpoint, e),
        op::Disarm(_) => failed(s, attempt::Breakpoint, e),
        op::Delete(_) => failed(s, attempt::Breakpoint, e),
        op::Create(_) => failed(s, attempt::Breakpoint, e),
        op::ArmReentry(_) => failed(s, attempt::Breakpoint, e),
        op::DisarmReentry => failed(s, attempt::Breakpoint, e),
        op::Step => failed(s, attempt::Resume, e),
        op::Wait => failed(s, attempt::Resume, e),
        op::Cont => failed(s, attempt::Resume, e),
        op::ShowSignal => failed(s, attempt::Resume, e),
        op::Store(_, _) => failed(s, attempt::MemoryWrite, e),
        op::Poke(_, _, _, _) => failed(s, attempt::MemoryWrite, e),
        op::Write(_, _) => only(s, op::Halt(e)),
        _ => confused(s),
    }
}

/// The state after a file could not be read or written.
pub open spec fn after_file_failed(s: session, code: i32) -> session {
    match s.current {
        op::CaptureMaps => only(s, op::Say(report::FileFailure(code))),
        op::Save => only(s, op::Say(report::FileFailure(code))),
        op::Restore(_) => only(s, op::Say(report::FileFailure(code))),
        op::RestoreMaps(_) => only(s, op::Say(report::FileFailure(code))),
        _ => confused(s),
    }
}

/// The state after the reply to the request that is waiting. A session
/// that has ended stays ended, and what follows a message does not depend
/// on the reply to it.
pub open spec fn react(s: session, reply: reply_view, dwarf_info: debug_info) -> session {
    match s.current {
        op::Quit(again) => only(s, op::Quit(again)),
        op::Halt(e) => only(s, op::Halt(e)),
        op::Say(_) => s,
        _ => match reply {
            reply_view::Line(line) => after_line(s, line, dwarf_info),
            reply_view::Done => after_done(s),
            reply_view::Regs(bank) => after_regs(s, bank),
            reply_view::Word(word) => after_word(s, word),
            reply_view::Maps(text) => after_maps(s, text),
            reply_view::Loaded(trace) => after_loaded(s, trace),
            reply_view::Failed(e) => after_failed(s, e),
            reply_view::FileFailed(code) => after_file_failed(s, code),
        },
    }
}

/// The state of a session that has just begun: the first thing asked for
/// is to wait for the child to stop.
pub open spec fn begun(s: session) -> session {
    only(s, op::Wait)
}

/// The snapshot with a word added to the stack, for a stack region, or to
/// the heap.
pub open spec fn with_captured(trace: trace_view, region: addr_mapping, word: u64) -> trace_view {
    if region is Stack {
        trace_view { stack: trace.stack.push(word), ..trace }
    } else {
        trace_view { heap: trace.heap.push(word), ..trace }
    }
}

/// The state and the request after one reply.
#[verifier::opaque]
pub open spec fn turn(s: session, reply: reply_view, dwarf_info: debug_info) -> (
    session,
    request_view,
) {
    issue(react(s, reply, dwarf_info))
}

} // verus!
