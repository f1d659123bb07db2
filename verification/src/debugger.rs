//! The debugger: what each command asks of the child, step by step.
//!
//! A command is turned into a script, a list of steps. Each step asks one
//! thing of the layer that traces the child, and the reply to it may put
//! further steps in front of the rest. The debugger never touches the child
//! itself: it hands out one request at a time and is handed the reply.
use vstd::prelude::*;
use std::collections::VecDeque;
use nix::errno::Errno;
use nix::unistd::Pid;
use crate::breakpoint::{bp_storage, breakpoint, holds_addr, index_of_addr, live_at, live_rows};
use crate::child::{request_view, trace_reply, trace_request};
use crate::dwarf_functionality::{
    debug_info, get_func_from_pc, line_report, line_reports, line_stuff, subprogram_at,
};
use crate::format::{
    format_rw_text, parse_format, rw_formatting, shown, Direction, Radix, POINTER_WIDTH,
};
use crate::misc::{dict_to_regs, dump_regs, parse_int, regs_to_dict, text_to_int};
use crate::protocol::{lemma_begun_waits, lemma_turn_waits, waits};
use crate::registers::{bank_mapping, dump_order, register_named, Register, RegisterBank};
use crate::report::{attempt, complaint, report};
use crate::session::{
    after_done, after_failed, after_file_failed, after_line, after_loaded, after_maps, after_regs,
    after_word, begun, capture_plan, confused, dump_plan, failed, first, issue, only, poke_plan,
    poke_steps, reentry_plan, request_of, session, slot_request, turn,
};
use crate::text::{copy_range, split_args, split_line, text_is, texts, to_chars};
use crate::trace::{
    addr_mapping, get_heap_and_stack, has_kind, maps_file_of, maps_path, pid_digits,
    snapshot_path, words_in, Trace, WORD_BYTES,
};

verus! {

/// The program counter used for the diagnostic subprogram lookup.
pub const DIAGNOSTIC_PC: u64 = 0x113e;

/// What the command loop does after a command.
#[derive(Clone, Copy, Debug, PartialEq, Eq, Structural)]
pub enum dbg_cmd {
    /// End the session and the debugger.
    Exit,
    /// End the session and start the child anew.
    Restart,
    /// Go on with the next command.
    Continue,
}

/// One step of a script.
#[derive(Clone, Copy, Debug, PartialEq, Eq)]
pub enum op {
    /// Read the next command.
    Prompt,
    /// End the session; `true` asks for a restart.
    Quit(bool),
    /// Give up after a write into the child has failed.
    Halt(Errno),
    /// Tell the user something.
    Say(report),
    /// Read the program counter and plan the way over a breakpoint.
    Continue,
    /// Let the child execute one instruction.
    Step,
    /// Wait until the child stops.
    Wait,
    /// Let the child run.
    Cont,
    /// Show the signal that stopped the child.
    ShowSignal,
    /// Arm the breakpoint in a slot.
    Arm(usize),
    /// Disarm the breakpoint in a slot.
    Disarm(usize),
    /// Disarm the breakpoint in a slot and empty the slot.
    Delete(usize),
    /// Arm a new breakpoint at an address and add it to the table.
    Create(usize),
    /// Write a word that patches or restores a breakpoint at an address.
    Write(usize, u64),
    /// Write a word of data at an address.
    Store(usize, u64),
    /// Write the low bytes of a register: the register, the value, the
    /// width in bytes.
    WriteReg(Register, u64, u8),
    /// Write all registers.
    PutRegs(RegisterBank),
    /// Show a register in a format.
    ShowReg(Register, rw_formatting),
    /// Show all registers.
    DumpRegs,
    /// Show the word at an address in a format.
    ReadMem(usize, rw_formatting),
    /// Write a value at an address at the width of a format.
    WriteMem(usize, u64, rw_formatting),
    /// Start a snapshot with the registers.
    Snapshot,
    /// Find the regions that the snapshot covers.
    CaptureMaps,
    /// Capture the words of a region from an index on.
    Capture(addr_mapping, usize),
    /// Write the snapshot to its file.
    Save,
    /// Load a snapshot, to restore it. The re-entry program counter is
    /// the one given, or, where none is given, the program counter that
    /// the snapshot has captured.
    Restore(Option<usize>),
    /// Find the regions to restore into.
    RestoreMaps(usize),
    /// Write words of the snapshot's stack (`true`) or heap back: the word
    /// at an index goes to an address, the next word to the next address,
    /// and so on up to, not including, a last index.
    Poke(bool, usize, usize, usize),
    /// Arm the re-entry breakpoint.
    ArmReentry(usize),
    /// Disarm the re-entry breakpoint.
    DisarmReentry,
    /// Put the registers of the snapshot back.
    RestoreRegs,
}

/// The commands of the prompt.
#[derive(Clone, Copy, Debug, PartialEq, Eq, Structural)]
pub enum command {
    Continue,
    Break,
    Registers,
    Memory,
    Step,
    Exit,
    Restart,
    Dwarf,
    Snapshot,
    Restore,
    Invalid,
}

/// The command that a first word names.
pub open spec fn command_named(word: Seq<char>) -> command {
    if word == "continue"@ || word == "cont"@ || word == "c"@ {
        command::Continue
    } else if word == "break"@ || word == "breakpoint"@ || word == "b"@ {
        command::Break
    } else if word == "registers"@ || word == "regs"@ || word == "r"@ {
        command::Registers
    } else if word == "memory"@ || word == "mem"@ || word == "m"@ {
        command::Memory
    } else if word == "s"@ || word == "si"@ {
        command::Step
    } else if word == "exit"@ {
        command::Exit
    } else if word == "restart"@ {
        command::Restart
    } else if word == "dwarf"@ {
        command::Dwarf
    } else if word == "snapshot"@ {
        command::Snapshot
    } else if word == "restore"@ {
        command::Restore
    } else {
        command::Invalid
    }
}

/// The step that the second word of a `break` command asks for on a slot.
pub open spec fn slot_step(word: Seq<char>, idx: usize) -> Option<op> {
    if word == "disable"@ || word == "d"@ {
        Some(op::Disarm(idx))
    } else if word == "enable"@ || word == "e"@ {
        Some(op::Arm(idx))
    } else if word == "delete"@ || word == "de"@ {
        Some(op::Delete(idx))
    } else {
        None
    }
}

pub open spec fn say(what: complaint) -> Seq<op> {
    seq![op::Say(report::Complaint(what))]
}

/// An address that a 64-bit value names, where it is one on this machine.
pub open spec fn as_address(value: u64) -> Option<usize> {
    if value <= usize::MAX {
        Some(value as usize)
    } else {
        None
    }
}

/// Whether a live, armed breakpoint stands just before a program counter.
pub open spec fn stopped_at_breakpoint(slots: Seq<Option<breakpoint>>, rip: u64) -> bool {
    &&& rip >= 1
    &&& as_address((rip - 1) as u64) is Some
    &&& holds_addr(slots, as_address((rip - 1) as u64)->0)
    &&& slots[index_of_addr(slots, as_address((rip - 1) as u64)->0)]->0.enabled
}

/// The script of `continue`, once the program counter is known. Where the
/// child has stopped on a live, armed breakpoint, the breakpoint is
/// disarmed, the program counter set back onto it, one instruction
/// executed, and the breakpoint armed again; then, in either case, the
/// child runs on and the signal that stops it is shown.
pub open spec fn continue_plan(slots: Seq<Option<breakpoint>>, rip: u64) -> Seq<op> {
    let resume = seq![op::Cont, op::Wait, op::ShowSignal];
    if stopped_at_breakpoint(slots, rip) {
        let addr = as_address((rip - 1) as u64)->0;
        let idx = index_of_addr(slots, addr) as usize;
        seq![
            op::Disarm(idx),
            op::WriteReg(Register::Rip, (rip - 1) as u64, POINTER_WIDTH),
            op::Step,
            op::Wait,
            op::Arm(idx),
        ] + resume
    } else {
        resume
    }
}

/// The script that lists the live breakpoints.
pub open spec fn list_plan(slots: Seq<Option<breakpoint>>) -> Seq<op> {
    seq![op::Say(report::BreakpointHeader)] + live_rows(slots).map_values(
        |row: (usize, breakpoint)| op::Say(report::BreakpointRow(row.0, row.1.enabled, row.1.addr)),
    )
}

/// The script of `break <addr>`.
pub open spec fn create_plan(slots: Seq<Option<breakpoint>>, args: Seq<Seq<char>>) -> Seq<op> {
    if args.len() < 2 {
        say(complaint::BreakpointArgumentMissing)
    } else {
        match parse_int(args[1]) {
            None => say(complaint::InvalidBreakpointAddress),
            Some(addr) => if holds_addr(slots, addr) {
                say(complaint::DuplicateBreakpoint)
            } else {
                seq![op::Create(addr)]
            },
        }
    }
}

/// The script of a `break` command.
pub open spec fn breakpoint_plan(slots: Seq<Option<breakpoint>>, args: Seq<Seq<char>>) -> Seq<op> {
    if args.len() < 2 {
        say(complaint::BreakpointArgumentMissing)
    } else if args[1] == "list"@ || args[1] == "l"@ {
        list_plan(slots)
    } else if slot_step(args[1], 0) is Some {
        if args.len() < 3 {
            say(complaint::IndexMissing)
        } else {
            match parse_int(args[2]) {
                None => say(complaint::InvalidIndex),
                Some(idx) => if live_at(slots, idx as int) {
                    seq![slot_step(args[1], idx)->0]
                } else {
                    say(complaint::NoSuchBreakpoint)
                },
            }
        }
    } else {
        create_plan(slots, args)
    }
}

/// The steps that show the registers that a list of names names; a name of
/// no register is passed over.
pub open spec fn show_plan(names: Seq<Seq<char>>, fmt: rw_formatting) -> Seq<op>
    decreases names.len(),
{
    if names.len() == 0 {
        Seq::empty()
    } else {
        let front = show_plan(names.drop_last(), fmt);
        match register_named(names.last()) {
            Some(reg) => front.push(op::ShowReg(reg, fmt)),
            None => front,
        }
    }
}

/// The script of a `registers` command.
pub open spec fn regs_plan(args: Seq<Seq<char>>) -> Seq<op> {
    if args.len() < 2 {
        seq![op::DumpRegs]
    } else {
        match parse_format(args[1]) {
            Err(e) => seq![op::Say(report::Format(e))],
            Ok(fmt) => if fmt.rw == Some(Direction::Read) && args.len() > 2 {
                show_plan(args.skip(2), fmt)
            } else if fmt.rw == Some(Direction::Write) && args.len() == 4 {
                match parse_int(args[3]) {
                    None => say(complaint::InvalidRegisterValue),
                    Some(val) => match register_named(args[2]) {
                        None => say(complaint::InvalidRegisterName),
                        Some(reg) => seq![op::WriteReg(reg, val as u64, fmt.n_bytes)],
                    },
                }
            } else {
                Seq::empty()
            },
        }
    }
}

/// The script of a `memory` command.
pub open spec fn mem_plan(args: Seq<Seq<char>>) -> Seq<op> {
    if args.len() < 3 {
        say(complaint::MemoryUsage)
    } else {
        match parse_format(args[1]) {
            Err(e) => seq![op::Say(report::Format(e))],
            Ok(fmt) => if fmt.rw == Some(Direction::Read) && args.len() == 3 {
                match parse_int(args[2]) {
                    None => say(complaint::NoAddress),
                    Some(addr) => seq![op::ReadMem(addr, fmt)],
                }
            } else if fmt.rw == Some(Direction::Write) && args.len() == 4 {
                match parse_int(args[2]) {
                    None => say(complaint::NoAddress),
                    Some(addr) => match parse_int(args[3]) {
                        None => say(complaint::InvalidMemoryValue),
                        Some(val) => seq![op::WriteMem(addr, val as u64, fmt)],
                    },
                }
            } else {
                Seq::empty()
            },
        }
    }
}

/// The script of a `restore` command: the file is the second word; a third
/// word, where there is one, is the re-entry program counter. Where there
/// is none, the re-entry program counter is taken from the snapshot.
pub open spec fn restore_plan(args: Seq<Seq<char>>) -> Seq<op> {
    if args.len() < 2 {
        say(complaint::FileMissing)
    } else if args.len() >= 3 {
        match parse_int(args[2]) {
            None => say(complaint::NoAddress),
            Some(pc) => seq![op::Restore(Some(pc))],
        }
    } else {
        seq![op::Restore(None)]
    }
}

/// The script of the `dwarf` command: the subprogram that holds the
/// diagnostic program counter, if any, then the line table.
pub open spec fn dwarf_plan(dwarf_info: debug_info) -> Seq<op> {
    let found = match subprogram_at(dwarf_info.entries@, DIAGNOSTIC_PC) {
        Some(i) => seq![op::Say(report::Subprogram(i))],
        None => Seq::empty(),
    };
    found + line_reports(dwarf_info.rows@).map_values(|row: line_report| op::Say(report::Line(row)))
}

/// The script of a command line.
pub open spec fn command_plan(
    slots: Seq<Option<breakpoint>>,
    line: Seq<char>,
    dwarf_info: debug_info,
) -> Seq<op> {
    let args = split_args(line);
    if args.len() == 0 {
        Seq::empty()
    } else {
        match command_named(args[0]) {
            command::Continue => seq![op::Continue],
            command::Break => breakpoint_plan(slots, args),
            command::Registers => regs_plan(args),
            command::Memory => mem_plan(args),
            command::Step => seq![op::Step, op::Wait],
            command::Exit => Seq::empty(),
            command::Restart => Seq::empty(),
            command::Dwarf => dwarf_plan(dwarf_info),
            command::Snapshot => seq![op::Snapshot],
            command::Restore => restore_plan(args),
            command::Invalid => say(complaint::InvalidCommand),
        }
    }
}

/// What the command loop does after a command line: `exit` ends it,
/// `restart` ends it and asks for the child to be started anew, anything
/// else lets it go on.
pub open spec fn command_verdict(line: Seq<char>) -> dbg_cmd {
    let args = split_args(line);
    if args.len() == 0 {
        dbg_cmd::Continue
    } else {
        match command_named(args[0]) {
            command::Exit => dbg_cmd::Exit,
            command::Restart => dbg_cmd::Restart,
            _ => dbg_cmd::Continue,
        }
    }
}

/// The file that a command line names for `restore`, where it names one.
pub open spec fn command_path(line: Seq<char>) -> Option<Seq<char>> {
    let args = split_args(line);
    if args.len() >= 2 && command_named(args[0]) == command::Restore {
        Some(args[1])
    } else {
        None
    }
}

pub fn address_of(value: u64) -> (r: Option<usize>)
    ensures
        r == as_address(value),
{
    if value <= usize::MAX as u64 {
        Some(value as usize)
    } else {
        None
    }
}

fn one(step: op) -> (plan: Vec<op>)
    ensures
        plan@ == seq![step],
{
    let mut plan: Vec<op> = Vec::new();
    plan.push(step);
    plan
}

fn complain(what: complaint) -> (plan: Vec<op>)
    ensures
        plan@ == say(what),
{
    one(op::Say(report::Complaint(what)))
}

/// The command that a word names.
pub fn command_of(word: &Vec<char>) -> (r: command)
    ensures
        r == command_named(word@),
{
    if text_is(word, "continue") || text_is(word, "cont") || text_is(word, "c") {
        command::Continue
    } else if text_is(word, "break") || text_is(word, "breakpoint") || text_is(word, "b") {
        command::Break
    } else if text_is(word, "registers") || text_is(word, "regs") || text_is(word, "r") {
        command::Registers
    } else if text_is(word, "memory") || text_is(word, "mem") || text_is(word, "m") {
        command::Memory
    } else if text_is(word, "s") || text_is(word, "si") {
        command::Step
    } else if text_is(word, "exit") {
        command::Exit
    } else if text_is(word, "restart") {
        command::Restart
    } else if text_is(word, "dwarf") {
        command::Dwarf
    } else if text_is(word, "snapshot") {
        command::Snapshot
    } else if text_is(word, "restore") {
        command::Restore
    } else {
        command::Invalid
    }
}

fn slot_step_of(word: &Vec<char>, idx: usize) -> (r: Option<op>)
    ensures
        r == slot_step(word@, idx),
{
    if text_is(word, "disable") || text_is(word, "d") {
        Some(op::Disarm(idx))
    } else if text_is(word, "enable") || text_is(word, "e") {
        Some(op::Arm(idx))
    } else if text_is(word, "delete") || text_is(word, "de") {
        Some(op::Delete(idx))
    } else {
        None
    }
}

/// The script of a `registers` command.
pub fn handle_regs(args: &Vec<Vec<char>>) -> (plan: Vec<op>)
    ensures
        plan@ == regs_plan(texts(args@)),
{
    if args.len() < 2 {
        return one(op::DumpRegs);
    }
    let fmt = match format_rw_text(&args[1]) {
        Ok(f) => f,
        Err(e) => {
            return one(op::Say(report::Format(e)));
        },
    };
    let reading: bool = match fmt.rw {
        Some(Direction::Read) => true,
        _ => false,
    };
    let writing: bool = match fmt.rw {
        Some(Direction::Write) => true,
        _ => false,
    };
    if reading && args.len() > 2 {
        let ghost names = texts(args@).skip(2);
        let mut plan: Vec<op> = Vec::new();
        let mut i: usize = 2;
        while i < args.len()
            invariant
                2 <= i <= args.len(),
                names == texts(args@).skip(2),
                plan@ == show_plan(names.take(i - 2), fmt),
            decreases args.len() - i,
        {
            proof {
                let next = names.take(i - 2 + 1);
                assert(next.drop_last() == names.take(i - 2));
                assert(next.last() == args@[i as int]@);
            }
            match Register::from_text(&args[i]) {
                Some(reg) => {
                    plan.push(op::ShowReg(reg, fmt));
                },
                None => {},
            }
            i = i + 1;
        }
        proof {
            assert(names.take(args.len() - 2) == names);
        }
        plan
    } else if writing && args.len() == 4 {
        let val: usize = match text_to_int(&args[3]) {
            Some(num) => num,
            None => {
                return complain(complaint::InvalidRegisterValue);
            },
        };
        match Register::from_text(&args[2]) {
            Some(reg) => one(op::WriteReg(reg, val as u64, fmt.n_bytes)),
            None => complain(complaint::InvalidRegisterName),
        }
    } else {
        Vec::new()
    }
}

/// The script of a `memory` command.
pub fn handle_mem(args: &Vec<Vec<char>>) -> (plan: Vec<op>)
    ensures
        plan@ == mem_plan(texts(args@)),
{
    if args.len() < 3 {
        return complain(complaint::MemoryUsage);
    }
    let fmt = match format_rw_text(&args[1]) {
        Ok(f) => f,
        Err(e) => {
            return one(op::Say(report::Format(e)));
        },
    };
    let reading: bool = match fmt.rw {
        Some(Direction::Read) => true,
        _ => false,
    };
    let writing: bool = match fmt.rw {
        Some(Direction::Write) => true,
        _ => false,
    };
    if reading && args.len() == 3 {
        match text_to_int(&args[2]) {
            Some(addr) => one(op::ReadMem(addr, fmt)),
            None => complain(complaint::NoAddress),
        }
    } else if writing && args.len() == 4 {
        let addr: usize = match text_to_int(&args[2]) {
            Some(num) => num,
            None => {
                return complain(complaint::NoAddress);
            },
        };
        match text_to_int(&args[3]) {
            Some(val) => one(op::WriteMem(addr, val as u64, fmt)),
            None => complain(complaint::InvalidMemoryValue),
        }
    } else {
        Vec::new()
    }
}

/// The script of a `restore` command.
pub fn restore_trace_entrance(args: &Vec<Vec<char>>) -> (plan: Vec<op>)
    ensures
        plan@ == restore_plan(texts(args@)),
{
    if args.len() < 2 {
        return complain(complaint::FileMissing);
    }
    if args.len() >= 3 {
        match text_to_int(&args[2]) {
            Some(pc) => one(op::Restore(Some(pc))),
            None => complain(complaint::NoAddress),
        }
    } else {
        one(op::Restore(None))
    }
}

/// The script of the `dwarf` command.
pub fn handle_dwarf(dwarf_info: &debug_info) -> (plan: Vec<op>)
    ensures
        plan@ == dwarf_plan(*dwarf_info),
{
    let mut plan: Vec<op> = Vec::new();
    match get_func_from_pc(dwarf_info, DIAGNOSTIC_PC) {
        Some(i) => {
            plan.push(op::Say(report::Subprogram(i)));
        },
        None => {},
    }
    let rows = line_stuff(dwarf_info);
    let ghost found = plan@;
    let ghost says = |row: line_report| op::Say(report::Line(row));
    let mut i: usize = 0;
    while i < rows.len()
        invariant
            i <= rows.len(),
            says == |row: line_report| op::Say(report::Line(row)),
            plan@ == found + rows@.take(i as int).map_values(says),
        decreases rows.len() - i,
    {
        plan.push(op::Say(report::Line(rows[i])));
        proof {
            assert(plan@ =~= found + rows@.take(i + 1).map_values(says));
        }
        i = i + 1;
    }
    proof {
        assert(rows@.take(rows.len() as int) == rows@);
    }
    plan
}

/// The steps that write the words of a snapshot's stack (`true`) or heap
/// back into the regions of the kind that the child has now.
pub fn write_back(regions: &Vec<addr_mapping>, stack: bool) -> (plan: Vec<op>)
    ensures
        plan@ == poke_plan(regions@, stack),
{
    let mut plan: Vec<op> = Vec::new();
    let mut offset: usize = 0;
    let mut found: bool = false;
    let mut i: usize = 0;
    while i < regions.len()
        invariant
            i <= regions.len(),
            plan@ == poke_steps(regions@.take(i as int), stack),
            offset == words_in(regions@.take(i as int), stack),
            found == has_kind(regions@.take(i as int), stack),
        decreases regions.len() - i,
    {
        proof {
            let next = regions@.take(i + 1);
            let seen = regions@.take(i as int);
            assert(next.drop_last() == seen);
            assert(next.last() == regions@[i as int]);
            if has_kind(seen, stack) {
                let k = choose|k: int| 0 <= k < seen.len() && (#[trigger] seen[k] is Stack) == stack;
                assert((next[k] is Stack) == stack);
            }
            if has_kind(next, stack) && (next.last() is Stack) != stack {
                let k = choose|k: int| 0 <= k < next.len() && (#[trigger] next[k] is Stack) == stack;
                assert((seen[k] is Stack) == stack);
            }
            if (next.last() is Stack) == stack {
                assert((next[i as int] is Stack) == stack);
            }
        }
        let region = regions[i];
        if region.is_stack() == stack {
            let count: usize = region.words();
            let end: usize = if count <= usize::MAX - offset {
                offset + count
            } else {
                usize::MAX
            };
            plan.push(op::Poke(stack, region.start(), offset, end));
            offset = end;
            found = true;
        }
        i = i + 1;
    }
    proof {
        assert(regions@.take(regions.len() as int) == regions@);
    }
    if !found {
        if stack {
            complain(complaint::StackNotRestored)
        } else {
            complain(complaint::HeapNotRestored)
        }
    } else {
        plan
    }
}

/// The debugger of one child.
pub struct Debugger {
    /// The child.
    pub m_pid: Pid,
    /// The breakpoints.
    pub bp_table: bp_storage,
    /// The snapshot that was last captured or loaded.
    pub trace_file: Trace,
    /// Whether the snapshot is whole.
    pub trace_enabled: bool,
    /// The steps still to take, the next one first.
    pub script: VecDeque<op>,
    /// The step whose request is waiting for its reply.
    pub current: op,
    /// The breakpoint at the re-entry program counter of a restore.
    pub reentry: Option<breakpoint>,
    /// The file named by the last `restore` command.
    pub path: Vec<char>,
    /// The file that shows the address-space map of the child.
    pub maps_file: Vec<char>,
}

impl View for Debugger {
    type V = session;

    open spec fn view(&self) -> session {
        session {
            pid: self.m_pid,
            table: self.bp_table@,
            trace: self.trace_file@,
            trace_enabled: self.trace_enabled,
            script: self.script@,
            current: self.current,
            reentry: self.reentry,
            path: self.path@,
            maps_file: self.maps_file@,
        }
    }
}

impl Debugger {
    /// The invariant of the debugger: that of its table of breakpoints.
    pub open spec fn wf(&self) -> bool {
        self.bp_table.wf()
    }

    /// The debugger of a child, with no breakpoint and nothing to do yet.
    pub fn New(child: Pid) -> (dbg: Debugger)
        ensures
            dbg.wf(),
            dbg@.pid == child,
            dbg@.table == Seq::<Option<breakpoint>>::empty(),
            dbg@.script == Seq::<op>::empty(),
            dbg@.current == op::Prompt,
            dbg@.reentry == None::<breakpoint>,
            dbg@.path == Seq::<char>::empty(),
            !dbg@.trace_enabled,
            dbg@.trace.stack == Seq::<u64>::empty(),
            dbg@.trace.heap == Seq::<u64>::empty(),
            dbg@.trace.regs == Map::<Register, u64>::empty(),
            dbg@.maps_file == maps_file_of(pid_digits(child)),
            waits(dbg@),
    {
        Debugger {
            m_pid: child,
            bp_table: bp_storage::New(),
            trace_file: Trace::New(),
            trace_enabled: false,
            script: VecDeque::new(),
            current: op::Prompt,
            reentry: None,
            path: Vec::new(),
            maps_file: maps_path(child),
        }
    }

    /// Puts one step before the rest of the script.
    fn next(&mut self, step: op)
        ensures
            final(self)@ == first(old(self)@, seq![step]),
            final(self).bp_table == old(self).bp_table,
    {
        self.script.push_front(step);
    }

    /// Puts some steps before the rest of the script.
    fn next_all(&mut self, plan: &Vec<op>)
        ensures
            final(self)@ == first(old(self)@, plan@),
            final(self).bp_table == old(self).bp_table,
    {
        let mut i: usize = plan.len();
        while i > 0
            invariant
                i <= plan.len(),
                self@ == first(old(self)@, plan@.subrange(i as int, plan.len() as int)),
                self.bp_table == old(self).bp_table,
            decreases i,
        {
            i = i - 1;
            let ghost before = self.script@;
            self.script.push_front(plan[i]);
            proof {
                assert(seq![plan@[i as int]] + plan@.subrange(i + 1, plan.len() as int)
                    =~= plan@.subrange(i as int, plan.len() as int));
                assert(self.script@ =~= plan@.subrange(i as int, plan.len() as int) + old(
                    self,
                ).script@);
            }
        }
        proof {
            assert(plan@.subrange(0, plan.len() as int) == plan@);
        }
    }

    /// Gives the script up for one step.
    fn only(&mut self, step: op)
        ensures
            final(self)@ == only(old(self)@, step),
            final(self).bp_table == old(self).bp_table,
    {
        self.script.clear();
        self.script.push_back(step);
        proof {
            assert(self.script@ =~= seq![step]);
        }
    }

    fn fail(&mut self, what: attempt, e: Errno)
        ensures
            final(self)@ == failed(old(self)@, what, e),
            final(self).bp_table == old(self).bp_table,
    {
        self.only(op::Say(report::Failure(what, e)));
    }

    fn confuse(&mut self)
        ensures
            final(self)@ == confused(old(self)@),
            final(self).bp_table == old(self).bp_table,
    {
        self.only(op::Say(report::Complaint(complaint::UnexpectedReply)));
    }

    /// The script of `continue`, once the registers have been read.
    pub fn continue_exec(&self, regs: &RegisterBank) -> (plan: Vec<op>)
        requires
            self.wf(),
        ensures
            plan@ == continue_plan(self@.table, regs.rip),
    {
        let mut plan: Vec<op> = Vec::new();
        let rip: u64 = regs.rip;
        if rip >= 1 {
            match address_of(rip - 1) {
                Some(addr) => match self.bp_table.find_by_addr(addr) {
                    Some(idx) => match self.bp_table.get(idx) {
                        Some(bp) => {
                            if bp.enabled {
                                plan.push(op::Disarm(idx));
                                plan.push(op::WriteReg(Register::Rip, rip - 1, POINTER_WIDTH));
                                plan.push(op::Step);
                                plan.push(op::Wait);
                                plan.push(op::Arm(idx));
                            }
                        },
                        None => {},
                    },
                    None => {},
                },
                None => {},
            }
        }
        let ghost dance = plan@;
        plan.push(op::Cont);
        plan.push(op::Wait);
        plan.push(op::ShowSignal);
        proof {
            assert(plan@ =~= dance + seq![op::Cont, op::Wait, op::ShowSignal]);
            assert(plan@ =~= continue_plan(self@.table, regs.rip));
        }
        plan
    }

    /// The script that lists the live breakpoints.
    pub fn list_breakpoints(&self) -> (plan: Vec<op>)
        ensures
            plan@ == list_plan(self@.table),
    {
        let rows = self.bp_table.iter_live();
        let mut plan: Vec<op> = Vec::new();
        plan.push(op::Say(report::BreakpointHeader));
        let ghost says = |row: (usize, breakpoint)|
            op::Say(report::BreakpointRow(row.0, row.1.enabled, row.1.addr));
        let mut i: usize = 0;
        while i < rows.len()
            invariant
                i <= rows.len(),
                says == |row: (usize, breakpoint)|
                    op::Say(report::BreakpointRow(row.0, row.1.enabled, row.1.addr)),
                plan@ == seq![op::Say(report::BreakpointHeader)] + rows@.take(i as int).map_values(
                    says,
                ),
            decreases rows.len() - i,
        {
            let row = rows[i];
            plan.push(op::Say(report::BreakpointRow(row.0, row.1.enabled, row.1.addr)));
            proof {
                assert(plan@ =~= seq![op::Say(report::BreakpointHeader)] + rows@.take(
                    i + 1,
                ).map_values(says));
            }
            i = i + 1;
        }
        proof {
            assert(rows@.take(rows.len() as int) == rows@);
        }
        plan
    }

    /// The script of `break <addr>`.
    pub fn create_breakpoint(&self, args: &Vec<Vec<char>>) -> (plan: Vec<op>)
        requires
            self.wf(),
        ensures
            plan@ == create_plan(self@.table, texts(args@)),
    {
        if args.len() < 2 {
            return complain(complaint::BreakpointArgumentMissing);
        }
        let addr: usize = match text_to_int(&args[1]) {
            Some(num) => num,
            None => {
                return complain(complaint::InvalidBreakpointAddress);
            },
        };
        if self.bp_table.contains(addr) {
            complain(complaint::DuplicateBreakpoint)
        } else {
            one(op::Create(addr))
        }
    }

    /// The script of a `break` command.
    pub fn handle_breakpoints(&self, args: &Vec<Vec<char>>) -> (plan: Vec<op>)
        requires
            self.wf(),
        ensures
            plan@ == breakpoint_plan(self@.table, texts(args@)),
    {
        if args.len() < 2 {
            return complain(complaint::BreakpointArgumentMissing);
        }
        if text_is(&args[1], "list") || text_is(&args[1], "l") {
            return self.list_breakpoints();
        }
        if slot_step_of(&args[1], 0).is_none() {
            return self.create_breakpoint(args);
        }
        if args.len() < 3 {
            return complain(complaint::IndexMissing);
        }
        let idx: usize = match text_to_int(&args[2]) {
            Some(num) => num,
            None => {
                return complain(complaint::InvalidIndex);
            },
        };
        if self.bp_table.get(idx).is_none() {
            return complain(complaint::NoSuchBreakpoint);
        }
        match slot_step_of(&args[1], idx) {
            Some(step) => one(step),
            None => Vec::new(),
        }
    }

    /// Reads a command line and puts its script before whatever is left
    /// to do. The result says whether the command loop goes on.
    pub fn handle_command(&mut self, command: &str, dwarf_info: &debug_info) -> (verdict: dbg_cmd)
        requires
            old(self).wf(),
        ensures
            final(self).wf(),
            verdict == command_verdict(command@),
            final(self)@ == (session {
                script: command_plan(old(self)@.table, command@, *dwarf_info) + old(self)@.script,
                path: match command_path(command@) {
                    Some(path) => path,
                    None => old(self)@.path,
                },
                ..old(self)@
            }),
    {
        let line = to_chars(command);
        let mut args = split_line(&line);
        if args.len() == 0 {
            proof {
                assert(self.script@ =~= Seq::<op>::empty() + self.script@);
            }
            return dbg_cmd::Continue;
        }
        proof {
            assert(texts(args@)[0] == args@[0]@);
        }
        let kind = command_of(&args[0]);
        let mut verdict = dbg_cmd::Continue;
        let plan: Vec<op> = match kind {
            command::Continue => one(op::Continue),
            command::Break => self.handle_breakpoints(&args),
            command::Registers => handle_regs(&args),
            command::Memory => handle_mem(&args),
            command::Step => {
                let mut plan: Vec<op> = Vec::new();
                plan.push(op::Step);
                plan.push(op::Wait);
                proof {
                    assert(plan@ =~= seq![op::Step, op::Wait]);
                }
                plan
            },
            command::Exit => {
                verdict = dbg_cmd::Exit;
                Vec::new()
            },
            command::Restart => {
                verdict = dbg_cmd::Restart;
                Vec::new()
            },
            command::Dwarf => handle_dwarf(dwarf_info),
            command::Snapshot => one(op::Snapshot),
            command::Restore => restore_trace_entrance(&args),
            command::Invalid => complain(complaint::InvalidCommand),
        };
        self.next_all(&plan);
        if args.len() >= 2 {
            match kind {
                command::Restore => {
                    proof {
                        assert(texts(args@)[1] == args@[1]@);
                    }
                    self.path = copy_range(&args[1], 0, args[1].len());
                    proof {
                        assert(args@[1]@.subrange(0, args@[1]@.len() as int) == args@[1]@);
                    }
                },
                _ => {},
            }
        }
        verdict
    }

    fn maps_file_copy(&self) -> (path: Vec<char>)
        ensures
            path@ == self.maps_file@,
    {
        let path = copy_range(&self.maps_file, 0, self.maps_file.len());
        proof {
            assert(self.maps_file@.subrange(0, self.maps_file@.len() as int) == self.maps_file@);
        }
        path
    }

    /// The request for the word at an address of the child.
    pub fn read_mem(&self, target_addr: usize) -> (request: trace_request)
        ensures
            request@ == request_view::ReadWord(target_addr),
    {
        trace_request::ReadWord(target_addr)
    }

    /// The request to write a word at an address of the child.
    pub fn write_mem(&self, target_addr: usize, data: u64) -> (request: trace_request)
        ensures
            request@ == request_view::WriteWord(target_addr, data),
    {
        trace_request::WriteWord(target_addr, data)
    }

    /// The request of a step, where it has one.
    fn request_for(&self, step: op) -> (r: Option<trace_request>)
        ensures
            match r {
                Some(request) => request_of(self@, step) == Some(request@),
                None => request_of(self@, step) is None,
            },
    {
        match step {
            op::Prompt => Some(trace_request::ReadLine),
            op::Quit(again) => Some(trace_request::Return(again)),
            op::Halt(e) => Some(trace_request::Fatal(e)),
            op::Say(what) => Some(trace_request::Say(what)),
            op::Continue => Some(trace_request::GetRegs),
            op::Step => Some(trace_request::Step),
            op::Wait => Some(trace_request::Wait),
            op::Cont => Some(trace_request::Cont),
            op::ShowSignal => Some(trace_request::ShowSignal),
            op::Arm(idx) => self.slot_request_for(idx),
            op::Disarm(idx) => self.slot_request_for(idx),
            op::Delete(idx) => self.slot_request_for(idx),
            op::Create(addr) => Some(self.read_mem(addr)),
            op::Write(addr, word) => Some(self.write_mem(addr, word)),
            op::Store(addr, word) => Some(self.write_mem(addr, word)),
            op::WriteReg(_, _, _) => Some(trace_request::GetRegs),
            op::PutRegs(bank) => Some(trace_request::SetRegs(bank)),
            op::ShowReg(_, _) => Some(trace_request::GetRegs),
            op::DumpRegs => Some(trace_request::GetRegs),
            op::ReadMem(addr, _) => Some(self.read_mem(addr)),
            op::WriteMem(addr, _, _) => Some(self.read_mem(addr)),
            op::Snapshot => Some(trace_request::GetRegs),
            op::CaptureMaps => Some(trace_request::ReadMaps(self.maps_file_copy())),
            op::Capture(region, i) => {
                if i < region.words() {
                    Some(self.read_mem(region.start() + i * WORD_BYTES))
                } else {
                    None
                }
            },
            op::Save => Some(trace_request::SaveTrace(snapshot_path(), self.trace_file.copy())),
            op::Restore(_) => {
                let path = copy_range(&self.path, 0, self.path.len());
                proof {
                    assert(self.path@.subrange(0, self.path@.len() as int) == self.path@);
                }
                Some(trace_request::LoadTrace(path))
            },
            op::RestoreMaps(_) => Some(trace_request::ReadMaps(self.maps_file_copy())),
            op::Poke(stack, addr, i, end) => {
                let words = if stack {
                    self.trace_file.get_stack()
                } else {
                    self.trace_file.get_heap()
                };
                if i < end && i < words.len() {
                    Some(self.write_mem(addr, words[i]))
                } else {
                    None
                }
            },
            op::ArmReentry(pc) => Some(self.read_mem(pc)),
            op::DisarmReentry => match self.reentry {
                Some(bp) => Some(self.read_mem(bp.addr)),
                None => None,
            },
            op::RestoreRegs => {
                if self.trace_file.regs.is_complete() {
                    Some(trace_request::SetRegs(dict_to_regs(&self.trace_file.regs)))
                } else {
                    Some(trace_request::Say(report::Complaint(complaint::SnapshotIncomplete)))
                }
            },
        }
    }

    fn slot_request_for(&self, idx: usize) -> (r: Option<trace_request>)
        ensures
            match r {
                Some(request) => slot_request(self@, idx) == Some(request@),
                None => slot_request(self@, idx) is None,
            },
    {
        match self.bp_table.get(idx) {
            Some(bp) => Some(self.read_mem(bp.addr)),
            None => None,
        }
    }

    /// Drops the steps that have nothing to ask and hands out the request
    /// of the first that has.
    fn issue(&mut self) -> (request: trace_request)
        requires
            old(self).wf(),
        ensures
            final(self).wf(),
            (final(self)@, request@) == issue(old(self)@),
    {
        loop
            invariant
                self.wf(),
                issue(self@) == issue(old(self)@),
            decreases self.script@.len(),
        {
            let ghost before = self@;
            match self.script.pop_front() {
                None => {
                    self.current = op::Prompt;
                    return trace_request::ReadLine;
                },
                Some(step) => {
                    proof {
                        assert(self@ == (session {
                            script: before.script.subrange(1, before.script.len() as int),
                            ..before
                        }));
                        assert(request_of(self@, step) == request_of(before, step));
                    }
                    match self.request_for(step) {
                        Some(request) => {
                            self.current = step;
                            return request;
                        },
                        None => {},
                    }
                },
            }
        }
    }

    /// Begins the session: the first request is to wait for the child to
    /// stop after it has been started.
    pub fn run(&mut self) -> (request: trace_request)
        requires
            old(self).wf(),
        ensures
            final(self).wf(),
            (final(self)@, request@) == issue(begun(old(self)@)),
            waits(final(self)@),
    {
        proof {
            lemma_begun_waits(self@);
        }
        self.only(op::Wait);
        self.issue()
    }

    /// Takes the reply to the request that was handed out last, and hands
    /// out the next request.
    pub fn resume(&mut self, reply: trace_reply, dwarf_info: &debug_info) -> (request:
        trace_request)
        requires
            old(self).wf(),
        ensures
            final(self).wf(),
            (final(self)@, request@) == turn(old(self)@, reply@, *dwarf_info),
            waits(old(self)@) ==> waits(final(self)@),
    {
        proof {
            reveal(turn);
            if waits(self@) {
                lemma_turn_waits(self@, reply@, *dwarf_info);
            }
        }
        let current = self.current;
        match current {
            op::Quit(again) => {
                self.only(op::Quit(again));
            },
            op::Halt(e) => {
                self.only(op::Halt(e));
            },
            op::Say(_) => {},
            _ => match reply {
                trace_reply::Line(line) => {
                    self.on_line(line.as_str(), dwarf_info);
                },
                trace_reply::Done => {
                    self.on_done();
                },
                trace_reply::Regs(bank) => {
                    self.on_regs(bank);
                },
                trace_reply::Word(word) => {
                    self.on_word(word);
                },
                trace_reply::Maps(text) => {
                    self.on_maps(text.as_str());
                },
                trace_reply::Loaded(trace) => {
                    self.on_loaded(trace);
                },
                trace_reply::Failed(e) => {
                    self.on_failed(e);
                },
                trace_reply::FileFailed(code) => {
                    self.on_file_failed(code);
                },
            },
        }
        self.issue()
    }

    fn on_line(&mut self, line: &str, dwarf_info: &debug_info)
        requires
            old(self).wf(),
        ensures
            final(self).wf(),
            final(self)@ == after_line(old(self)@, line@, *dwarf_info),
    {
        match self.current {
            op::Prompt => {
                match self.handle_command(line, dwarf_info) {
                    dbg_cmd::Exit => {
                        self.only(op::Quit(false));
                    },
                    dbg_cmd::Restart => {
                        self.only(op::Quit(true));
                    },
                    dbg_cmd::Continue => {},
                }
            },
            _ => {
                self.confuse();
            },
        }
    }

    fn on_done(&mut self)
        requires
            old(self).wf(),
        ensures
            final(self).wf(),
            final(self)@ == after_done(old(self)@),
    {
        match self.current {
            op::Step => {},
            op::Wait => {},
            op::Cont => {},
            op::ShowSignal => {},
            op::Write(_, _) => {},
            op::Store(_, _) => {},
            op::PutRegs(_) => {},
            op::RestoreRegs => {},
            op::Save => {
                self.trace_enabled = true;
            },
            op::Poke(stack, addr, i, end) => {
                if i < usize::MAX && addr <= usize::MAX - WORD_BYTES {
                    self.next(op::Poke(stack, addr + WORD_BYTES, i + 1, end));
                }
            },
            _ => {
                self.confuse();
            },
        }
    }

    fn on_regs(&mut self, bank: RegisterBank)
        requires
            old(self).wf(),
        ensures
            final(self).wf(),
            final(self)@ == after_regs(old(self)@, bank),
    {
        match self.current {
            op::Continue => {
                let plan = self.continue_exec(&bank);
                self.next_all(&plan);
            },
            op::WriteReg(reg, val, n_bytes) => {
                let fmt = rw_formatting { rw: None, format: Radix::Hex, n_bytes };
                let mut changed = bank;
                changed.set(reg, fmt.overlay(bank.get(reg), val));
                self.next(op::PutRegs(changed));
            },
            op::ShowReg(reg, fmt) => {
                self.next(op::Say(report::RegisterValue(reg, fmt.show(bank.get(reg)))));
            },
            op::DumpRegs => {
                let dict = regs_to_dict(bank);
                let rows = dump_regs(&dict);
                let mut plan: Vec<op> = Vec::new();
                let mut i: usize = 0;
                while i < rows.len()
                    invariant
                        i <= rows.len(),
                        rows@ == dump_order().map_values(|r: Register| (r, dict@[r])),
                        dict@ == bank_mapping(bank),
                        plan@.len() == i,
                        forall|k: int| 0 <= k < i ==> plan@[k] == dump_plan(bank)[k],
                    decreases rows.len() - i,
                {
                    let row = rows[i];
                    plan.push(op::Say(report::RegisterValue(row.0, shown::Hex(row.1))));
                    i = i + 1;
                }
                proof {
                    assert(plan@ =~= dump_plan(bank));
                }
                self.next_all(&plan);
            },
            op::Snapshot => {
                Trace::trace_init(self, bank);
            },
            _ => {
                self.confuse();
            },
        }
    }

    fn on_word(&mut self, word: u64)
        requires
            old(self).wf(),
        ensures
            final(self).wf(),
            final(self)@ == after_word(old(self)@, word),
    {
        match self.current {
            op::Arm(idx) => match self.bp_table.get(idx) {
                Some(bp) => match self.bp_table.enable(idx, Ok(word)) {
                    Ok(patched) => {
                        self.next(op::Write(bp.addr, patched));
                    },
                    Err(_) => {},
                },
                None => {},
            },
            op::Disarm(idx) => match self.bp_table.get(idx) {
                Some(bp) => match self.bp_table.disable(idx, Ok(word)) {
                    Ok(restored) => {
                        self.next(op::Write(bp.addr, restored));
                    },
                    Err(_) => {},
                },
                None => {},
            },
            op::Delete(idx) => match self.bp_table.get(idx) {
                Some(bp) => match self.bp_table.delete(idx, Ok(word)) {
                    Ok(restored) => {
                        self.next(op::Write(bp.addr, restored));
                    },
                    Err(_) => {},
                },
                None => {},
            },
            op::Create(addr) => {
                if !self.bp_table.contains(addr) {
                    let mut bp = breakpoint::New(self.m_pid, addr);
                    match bp.enable(Ok(word)) {
                        Ok(patched) => {
                            let _ = self.bp_table.insert(bp);
                            self.next(op::Write(addr, patched));
                        },
                        Err(_) => {},
                    }
                }
            },
            op::ReadMem(addr, fmt) => {
                self.next(op::Say(report::MemoryValue(addr, fmt.show(word))));
            },
            op::WriteMem(addr, val, fmt) => {
                self.next(op::Store(addr, fmt.overlay(word, val)));
            },
            op::Capture(region, i) => {
                if i < usize::MAX {
                    if region.is_stack() {
                        self.trace_file.stack_append(word);
                    } else {
                        self.trace_file.heap_append(word);
                    }
                    self.next(op::Capture(region, i + 1));
                }
            },
            op::ArmReentry(pc) => {
                let mut bp = breakpoint::New(self.m_pid, pc);
                match bp.enable(Ok(word)) {
                    Ok(patched) => {
                        self.reentry = Some(bp);
                        self.next(op::Write(pc, patched));
                    },
                    Err(_) => {},
                }
            },
            op::DisarmReentry => match self.reentry {
                Some(bp) => {
                    let mut bp = bp;
                    match bp.disable(Ok(word)) {
                        Ok(restored) => {
                            self.reentry = None;
                            self.next(op::Write(bp.addr, restored));
                        },
                        Err(_) => {},
                    }
                },
                None => {},
            },
            _ => {
                self.confuse();
            },
        }
    }

    fn on_maps(&mut self, text: &str)
        requires
            old(self).wf(),
        ensures
            final(self).wf(),
            final(self)@ == after_maps(old(self)@, text@),
    {
        match self.current {
            op::CaptureMaps => {
                let regions = get_heap_and_stack(text);
                let mut plan: Vec<op> = Vec::new();
                let ghost starts = |region: addr_mapping| op::Capture(region, 0);
                let mut i: usize = 0;
                while i < regions.len()
                    invariant
                        i <= regions.len(),
                        starts == |region: addr_mapping| op::Capture(region, 0),
                        plan@ == regions@.take(i as int).map_values(starts),
                    decreases regions.len() - i,
                {
                    plan.push(op::Capture(regions[i], 0));
                    proof {
                        assert(plan@ =~= regions@.take(i + 1).map_values(starts));
                    }
                    i = i + 1;
                }
                proof {
                    assert(regions@.take(regions.len() as int) == regions@);
                }
                plan.push(op::Save);
                proof {
                    assert(plan@ =~= capture_plan(regions@));
                }
                self.next_all(&plan);
            },
            op::RestoreMaps(pc) => {
                let regions = get_heap_and_stack(text);
                let mut plan = write_back(&regions, true);
                let mut heap = write_back(&regions, false);
                plan.append(&mut heap);
                let ghost pokes = plan@;
                plan.push(op::ArmReentry(pc));
                plan.push(op::Cont);
                plan.push(op::Wait);
                plan.push(op::DisarmReentry);
                plan.push(op::RestoreRegs);
                proof {
                    assert(pokes =~= poke_plan(regions@, true) + poke_plan(regions@, false));
                    assert(plan@ =~= pokes + reentry_plan(pc));
                }
                self.next_all(&plan);
            },
            _ => {
                self.confuse();
            },
        }
    }

    fn on_loaded(&mut self, trace: Trace)
        requires
            old(self).wf(),
        ensures
            final(self).wf(),
            final(self)@ == after_loaded(old(self)@, trace@),
    {
        match self.current {
            op::Restore(given) => {
                let pc = match given {
                    Some(pc) => Some(pc),
                    None => match trace.get_trace_regs().get(Register::Rip) {
                        Some(rip) => address_of(rip),
                        None => None,
                    },
                };
                match pc {
                    Some(pc) => {
                        Trace::restore(trace, self, pc);
                    },
                    None => {
                        self.only(op::Say(report::Complaint(complaint::SnapshotIncomplete)));
                    },
                }
            },
            _ => {
                self.confuse();
            },
        }
    }

    fn on_failed(&mut self, e: Errno)
        requires
            old(self).wf(),
        ensures
            final(self).wf(),
            final(self)@ == after_failed(old(self)@, e),
    {
        match self.current {
            op::Continue => self.fail(attempt::Registers, e),
            op::ShowReg(_, _) => self.fail(attempt::Registers, e),
            op::DumpRegs => self.fail(attempt::Registers, e),
            op::Snapshot => self.fail(attempt::Registers, e),
            op::WriteReg(_, _, _) => self.fail(attempt::RegisterWrite, e),
            op::PutRegs(_) => self.fail(attempt::RegisterWrite, e),
            op::RestoreRegs => self.fail(attempt::RegisterWrite, e),
            op::ReadMem(_, _) => self.fail(attempt::MemoryRead, e),
            op::Capture(_, _) => self.fail(attempt::MemoryRead, e),
            op::WriteMem(_, _, _) => self.fail(attempt::MemoryReadForWrite, e),
            op::Arm(_) => self.fail(attempt::Breakpoint, e),
            op::Disarm(_) => self.fail(attempt::Breakpoint, e),
            op::Delete(_) => self.fail(attempt::Breakpoint, e),
            op::Create(_) => self.fail(attempt::Breakpoint, e),
            op::ArmReentry(_) => self.fail(attempt::Breakpoint, e),
            op::DisarmReentry => self.fail(attempt::Breakpoint, e),
            op::Step => self.fail(attempt::Resume, e),
            op::Wait => self.fail(attempt::Resume, e),
            op::Cont => self.fail(attempt::Resume, e),
            op::ShowSignal => self.fail(attempt::Resume, e),
            op::Store(_, _) => self.fail(attempt::MemoryWrite, e),
            op::Poke(_, _, _, _) => self.fail(attempt::MemoryWrite, e),
            op::Write(_, _) => self.only(op::Halt(e)),
            _ => self.confuse(),
        }
    }

    fn on_file_failed(&mut self, code: i32)
        requires
            old(self).wf(),
        ensures
            final(self).wf(),
            final(self)@ == after_file_failed(old(self)@, code),
    {
        match self.current {
            op::CaptureMaps => self.only(op::Say(report::FileFailure(code))),
            op::Save => self.only(op::Say(report::FileFailure(code))),
            op::Restore(_) => self.only(op::Say(report::FileFailure(code))),
            op::RestoreMaps(_) => self.only(op::Say(report::FileFailure(code))),
            _ => self.confuse(),
        }
    }
}

} // verus!
