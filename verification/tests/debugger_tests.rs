use nix::errno::Errno;
use nix::unistd::Pid;
use std::collections::HashMap;
use tracedbg::breakpoint::breakpoint;
use tracedbg::child::{trace_reply, trace_request};
use tracedbg::debugger::{dbg_cmd, op, write_back, Debugger};
use tracedbg::dwarf_functionality::{
    attr_value, debug_entry, debug_info, file_name, line_report, line_row, DW_TAG_subprogram,
};
use tracedbg::format::{shown, FormatError};
use tracedbg::registers::{Register, RegisterBank};
use tracedbg::report::{attempt, complaint, report};
use tracedbg::trace::{addr_mapping, Trace};

const CODE: usize = 0x401000;
const STACK: usize = 0x7000;
const HEAP: usize = 0x5000;

/// A child that lives in this process: some bytes of memory, a register
/// bank, and a processor that knows four instructions.
struct Child {
    mem: HashMap<usize, u8>,
    regs: RegisterBank,
    maps: String,
    files: HashMap<String, Trace>,
    dead: bool,
    read_only: bool,
    signals_shown: usize,
}

impl Child {
    fn new(code: &[u8]) -> Child {
        let mut child = Child {
            mem: HashMap::new(),
            regs: RegisterBank::zeroed(),
            maps: format!(
                "{:x}-{:x} r-xp 00000000 08:01 7 /tmp/debuggee\n{:x}-{:x} rw-p 00000000 00:00 0 [heap]\n{:x}-{:x} rw-p 00000000 00:00 0 [stack]\n",
                CODE,
                CODE + 0x100,
                HEAP,
                HEAP + 16,
                STACK,
                STACK + 32
            ),
            files: HashMap::new(),
            dead: false,
            read_only: false,
            signals_shown: 0,
        };
        for i in 0..0x100 {
            child.mem.insert(CODE + i, 0xf4);
        }
        for (i, byte) in code.iter().enumerate() {
            child.mem.insert(CODE + i, *byte);
        }
        for i in 0..16 {
            child.mem.insert(HEAP + i, 0x10 + i as u8);
        }
        for i in 0..32 {
            child.mem.insert(STACK + i, 0x80 + i as u8);
        }
        child.regs.rip = CODE as u64;
        child.regs.rsp = (STACK + 16) as u64;
        child
    }

    fn byte(&self, addr: usize) -> u8 {
        self.mem[&addr]
    }

    fn read_word(&self, addr: usize) -> Result<u64, Errno> {
        if self.dead {
            return Err(Errno::ESRCH);
        }
        let mut word: u64 = 0;
        for i in 0..8 {
            match self.mem.get(&(addr + i)) {
                Some(byte) => word |= (*byte as u64) << (8 * i),
                None => return Err(Errno::EIO),
            }
        }
        Ok(word)
    }

    fn write_word(&mut self, addr: usize, word: u64) -> Result<(), Errno> {
        if self.dead {
            return Err(Errno::ESRCH);
        }
        if self.read_only {
            return Err(Errno::EFAULT);
        }
        for i in 0..8 {
            if !self.mem.contains_key(&(addr + i)) {
                return Err(Errno::EIO);
            }
        }
        for i in 0..8 {
            self.mem.insert(addr + i, (word >> (8 * i)) as u8);
        }
        Ok(())
    }

    /// Executes one instruction; `false` where the child stops for good or
    /// traps.
    fn execute(&mut self) -> bool {
        let rip = self.regs.rip as usize;
        let at = |i: usize| self.mem.get(&(rip + i)).copied().unwrap_or(0xf4);
        let imm = |from: usize| {
            (at(from) as u32)
                | (at(from + 1) as u32) << 8
                | (at(from + 2) as u32) << 16
                | (at(from + 3) as u32) << 24
        };
        if at(0) == 0xcc {
            self.regs.rip += 1;
            false
        } else if at(0) == 0x90 {
            self.regs.rip += 1;
            true
        } else if at(0) == 0x48 && at(1) == 0xc7 && at(2) == 0xc0 {
            self.regs.rax = imm(3) as i32 as i64 as u64;
            self.regs.rip += 7;
            true
        } else if at(0) == 0xc7 && at(1) == 0xc0 {
            self.regs.rax = imm(2) as u64;
            self.regs.rip += 6;
            true
        } else {
            false
        }
    }

    fn cont(&mut self) {
        while self.execute() {}
    }
}

/// The debugger and the child, with what passed between them.
struct Bench {
    dbg: Debugger,
    child: Child,
    dwarf: debug_info,
    waiting: trace_request,
    said: Vec<report>,
    asked: Vec<String>,
    saved: Vec<Trace>,
    ended: Option<bool>,
    fatal: Option<Errno>,
}

impl Bench {
    fn new(child: Child) -> Bench {
        let mut dbg = Debugger::New(Pid::from_raw(77));
        let first = dbg.run();
        assert_eq!(first, trace_request::Wait);
        let mut bench = Bench {
            dbg,
            child,
            dwarf: debug_info { entries: vec![], rows: vec![] },
            waiting: first,
            said: vec![],
            asked: vec![],
            saved: vec![],
            ended: None,
            fatal: None,
        };
        bench.settle();
        bench
    }

    fn reply(&mut self, reply: trace_reply) {
        self.waiting = self.dbg.resume(reply, &self.dwarf);
    }

    /// Carries out the requests until the debugger asks for a command or
    /// the session ends.
    fn settle(&mut self) {
        loop {
            let request = std::mem::replace(&mut self.waiting, trace_request::ReadLine);
            self.asked.push(format!("{:?}", request));
            let reply = match request {
                trace_request::ReadLine => {
                    self.asked.pop();
                    return;
                }
                trace_request::Return(again) => {
                    self.ended = Some(again);
                    self.waiting = trace_request::Return(again);
                    return;
                }
                trace_request::Fatal(e) => {
                    self.fatal = Some(e);
                    self.waiting = trace_request::Fatal(e);
                    return;
                }
                trace_request::Say(what) => {
                    self.said.push(what);
                    trace_reply::Done
                }
                trace_request::Wait => self.plain(),
                trace_request::Step => {
                    if !self.child.dead {
                        self.child.execute();
                    }
                    self.plain()
                }
                trace_request::Cont => {
                    if !self.child.dead {
                        self.child.cont();
                    }
                    self.plain()
                }
                trace_request::ShowSignal => {
                    self.child.signals_shown += 1;
                    self.plain()
                }
                trace_request::GetRegs => {
                    if self.child.dead {
                        trace_reply::Failed(Errno::ESRCH)
                    } else {
                        trace_reply::Regs(self.child.regs)
                    }
                }
                trace_request::SetRegs(bank) => {
                    if !self.child.dead {
                        self.child.regs = bank;
                    }
                    self.plain()
                }
                trace_request::ReadWord(addr) => match self.child.read_word(addr) {
                    Ok(word) => trace_reply::Word(word),
                    Err(e) => trace_reply::Failed(e),
                },
                trace_request::WriteWord(addr, word) => match self.child.write_word(addr, word) {
                    Ok(()) => trace_reply::Done,
                    Err(e) => trace_reply::Failed(e),
                },
                trace_request::ReadMaps(path) => {
                    let name: String = path.iter().collect();
                    if name == "/proc/77/maps" {
                        trace_reply::Maps(self.child.maps.clone())
                    } else {
                        trace_reply::FileFailed(2)
                    }
                }
                trace_request::SaveTrace(path, trace) => {
                    let name: String = path.iter().collect();
                    self.child.files.insert(name, trace.copy());
                    self.saved.push(trace);
                    trace_reply::Done
                }
                trace_request::LoadTrace(path) => {
                    let name: String = path.iter().collect();
                    match self.child.files.get(&name) {
                        Some(trace) => trace_reply::Loaded(trace.copy()),
                        None => trace_reply::FileFailed(2),
                    }
                }
            };
            self.reply(reply);
        }
    }

    fn plain(&self) -> trace_reply {
        if self.child.dead {
            trace_reply::Failed(Errno::ESRCH)
        } else {
            trace_reply::Done
        }
    }

    /// Types a command and returns what the debugger said in answer.
    fn command(&mut self, line: &str) -> Vec<report> {
        assert_eq!(self.waiting, trace_request::ReadLine);
        self.said.clear();
        self.asked.clear();
        self.reply(trace_reply::Line(String::from(line)));
        self.settle();
        self.said.clone()
    }

    fn rows(&self) -> Vec<(usize, bool, usize)> {
        self.dbg.bp_table.iter_live().iter().map(|row| (row.0, row.1.enabled, row.1.addr)).collect()
    }
}

fn mov_hlt() -> Child {
    Child::new(&[0x48, 0xc7, 0xc0, 0x41, 0x00, 0x00, 0x00, 0xf4])
}

fn nops() -> Child {
    Child::new(&[0x90; 16])
}

fn says(what: complaint) -> Vec<report> {
    vec![report::Complaint(what)]
}

#[test]
fn the_session_begins_by_waiting_for_the_child() {
    let mut dbg = Debugger::New(Pid::from_raw(1));
    assert_eq!(dbg.m_pid, Pid::from_raw(1));
    assert!(!dbg.trace_enabled);
    assert_eq!(dbg.run(), trace_request::Wait);
    let dwarf = debug_info { entries: vec![], rows: vec![] };
    assert_eq!(dbg.resume(trace_reply::Done, &dwarf), trace_request::ReadLine);
}

#[test]
fn the_first_wait_may_fail() {
    let mut dbg = Debugger::New(Pid::from_raw(1));
    let dwarf = debug_info { entries: vec![], rows: vec![] };
    dbg.run();
    assert_eq!(
        dbg.resume(trace_reply::Failed(Errno::ECHILD), &dwarf),
        trace_request::Say(report::Failure(attempt::Resume, Errno::ECHILD))
    );
    assert_eq!(dbg.resume(trace_reply::Done, &dwarf), trace_request::ReadLine);
}

#[test]
fn stop_at_a_breakpoint() {
    let mut bench = Bench::new(mov_hlt());
    assert!(bench.command("break 0x401000").is_empty());
    assert_eq!(bench.child.byte(CODE), 0xcc);
    assert_eq!(bench.child.byte(CODE + 1), 0xc7);
    assert!(bench.command("continue").is_empty());
    assert_eq!(bench.child.regs.rip, CODE as u64 + 1);
    assert_eq!(bench.child.regs.rax, 0);
    assert_eq!(bench.child.signals_shown, 1);
    assert_eq!(bench.asked, vec!["GetRegs", "Cont", "Wait", "ShowSignal"]);
}

#[test]
fn read_a_register_before_and_after_a_step() {
    let mut bench = Bench::new(mov_hlt());
    bench.command("break 0x401000");
    bench.command("continue");
    assert_eq!(
        bench.command("registers r rax"),
        vec![report::RegisterValue(Register::Rax, shown::Hex(0))]
    );
    assert!(bench.command("si").is_empty());
    assert_eq!(bench.asked, vec!["Step", "Wait"]);
    assert_eq!(
        bench.command("registers r rax"),
        vec![report::RegisterValue(Register::Rax, shown::Hex(0x41))]
    );
}

#[test]
fn a_second_breakpoint_at_one_address_is_refused() {
    let mut bench = Bench::new(mov_hlt());
    assert!(bench.command("break 0x401000").is_empty());
    assert_eq!(bench.command("break 0x401000"), says(complaint::DuplicateBreakpoint));
    assert!(bench.asked.iter().all(|request| request.starts_with("Say")));
    assert_eq!(
        bench.command("break list"),
        vec![report::BreakpointHeader, report::BreakpointRow(0, true, 0x401000)]
    );
    assert_eq!(bench.dbg.bp_table.get(0).unwrap().saved_data, Some(0x48));
}

#[test]
fn a_deleted_index_stays_deleted() {
    let mut bench = Bench::new(nops());
    bench.command("break 0x401000");
    bench.command("break 0x401010");
    assert!(bench.command("break delete 0").is_empty());
    bench.command("break 0x401020");
    assert_eq!(
        bench.command("break list"),
        vec![
            report::BreakpointHeader,
            report::BreakpointRow(1, true, 0x401010),
            report::BreakpointRow(2, true, 0x401020),
        ]
    );
    assert_eq!(bench.child.byte(CODE), 0x90);
    assert_eq!(bench.child.byte(CODE + 0x10), 0xcc);
}

#[test]
fn a_one_byte_write_to_a_register() {
    let mut bench = Bench::new(nops());
    bench.child.regs.rax = 0x1122_3344_5566_7788;
    bench.child.regs.rbx = 0xbbbb;
    assert!(bench.command("registers w1 rax 0xFF").is_empty());
    assert_eq!(bench.child.regs.rax, 0x1122_3344_5566_77ff);
    assert_eq!(bench.child.regs.rbx, 0xbbbb);
    assert_eq!(bench.child.regs.rip, CODE as u64);
    assert_eq!(bench.asked.len(), 2);
    assert_eq!(bench.asked[0], "GetRegs");
    assert!(bench.asked[1].starts_with("SetRegs"));
}

#[test]
fn a_full_width_write_to_a_register() {
    let mut bench = Bench::new(nops());
    bench.child.regs.rcx = u64::MAX;
    bench.command("r w rcx 0x41");
    assert_eq!(bench.child.regs.rcx, 0x41);
    bench.command("regs w8 rcx 7");
    assert_eq!(bench.child.regs.rcx, 7);
    bench.command("regs w4 rcx 0x1122334455667788");
    assert_eq!(bench.child.regs.rcx, 0x55667788);
}

#[test]
fn snapshot_then_restore_brings_a_stack_word_back() {
    let mut bench = Bench::new(nops());
    bench.child.regs.rax = 0x1234;
    let captured = bench.child.regs;
    let before = bench.child.read_word(STACK + 8).unwrap();
    assert!(bench.command("snapshot").is_empty());
    assert!(bench.dbg.trace_enabled);
    assert!(bench.command("memory w 0x7008 0xdeadbeef").is_empty());
    assert_eq!(bench.child.read_word(STACK + 8), Ok(0xdeadbeef));
    bench.child.regs.rax = 0;
    assert!(bench.command("restore trace 0x401004").is_empty());
    assert_eq!(bench.child.read_word(STACK + 8), Ok(before));
    assert_eq!(bench.child.regs, captured);
    assert_eq!(bench.child.byte(CODE + 4), 0x90);
    assert_eq!(bench.dbg.reentry, None);
}

#[test]
fn snapshot_captures_registers_stack_and_heap() {
    let mut bench = Bench::new(nops());
    bench.child.regs.rdx = 99;
    bench.command("snapshot");
    assert_eq!(bench.saved.len(), 1);
    let trace = &bench.saved[0];
    assert_eq!(trace.get_trace_regs().get(Register::Rdx), Some(99));
    assert_eq!(trace.get_trace_regs().get(Register::Rip), Some(CODE as u64));
    assert!(trace.get_trace_regs().is_complete());
    assert_eq!(
        trace.get_stack(),
        &vec![
            0x8786_8584_8382_8180,
            0x8f8e_8d8c_8b8a_8988,
            0x9796_9594_9392_9190,
            0x9f9e_9d9c_9b9a_9998
        ]
    );
    assert_eq!(trace.get_heap(), &vec![0x1716_1514_1312_1110, 0x1f1e_1d1c_1b1a_1918]);
    assert_eq!(bench.dbg.trace_file, *trace);
    assert_eq!(bench.asked.len(), 9);
    assert!(bench.asked[1].starts_with("ReadMaps"));
    assert_eq!(bench.asked[0], "GetRegs");
    assert_eq!(
        bench.asked[2..8],
        [
            "ReadWord(20480)",
            "ReadWord(20488)",
            "ReadWord(28672)",
            "ReadWord(28680)",
            "ReadWord(28688)",
            "ReadWord(28696)",
        ]
    );
    assert!(bench.asked[8].starts_with("SaveTrace"));
}

#[test]
fn a_snapshot_that_cannot_read_memory_is_not_whole() {
    let mut bench = Bench::new(nops());
    bench.child.maps = String::from("9000-9010 rw-p 0 0 0 [heap]\n");
    assert_eq!(bench.command("snapshot"), vec![report::Failure(attempt::MemoryRead, Errno::EIO)]);
    assert!(!bench.dbg.trace_enabled);
    assert!(bench.saved.is_empty());
}

#[test]
fn restore_writes_every_word_at_its_own_address() {
    let mut bench = Bench::new(nops());
    bench.command("snapshot");
    for i in 0..4 {
        bench.child.write_word(STACK + 8 * i, 0).unwrap();
    }
    for i in 0..2 {
        bench.child.write_word(HEAP + 8 * i, 0).unwrap();
    }
    bench.command("restore trace 0x401002");
    for i in 0..32 {
        assert_eq!(bench.child.byte(STACK + i), 0x80 + i as u8);
    }
    for i in 0..16 {
        assert_eq!(bench.child.byte(HEAP + i), 0x10 + i as u8);
    }
}

#[test]
fn restore_asks_in_order() {
    let mut bench = Bench::new(nops());
    bench.command("snapshot");
    bench.command("restore trace 0x401004");
    let kinds: Vec<&str> =
        bench.asked.iter().map(|request| request.split('(').next().unwrap()).collect();
    assert_eq!(
        kinds,
        vec![
            "LoadTrace", "ReadMaps", "WriteWord", "WriteWord", "WriteWord", "WriteWord",
            "WriteWord", "WriteWord", "ReadWord", "WriteWord", "Cont", "Wait", "ReadWord",
            "WriteWord", "SetRegs",
        ]
    );
    assert_eq!(bench.asked[2], format!("WriteWord({}, {})", STACK, 0x8786_8584_8382_8180u64));
    assert_eq!(bench.asked[6], format!("WriteWord({}, {})", HEAP, 0x1716_1514_1312_1110u64));
    assert_eq!(bench.asked[8], format!("ReadWord({})", 0x401004));
}

#[test]
fn restore_without_a_place_for_the_words() {
    let mut bench = Bench::new(nops());
    bench.command("snapshot");
    bench.child.maps = String::from("401000-401100 r-xp 0 0 0 /tmp/debuggee\n");
    assert_eq!(
        bench.command("restore trace 0x401004"),
        vec![
            report::Complaint(complaint::StackNotRestored),
            report::Complaint(complaint::HeapNotRestored),
        ]
    );
}

#[test]
fn restore_needs_a_file() {
    let mut bench = Bench::new(nops());
    assert_eq!(bench.command("restore"), says(complaint::FileMissing));
    assert_eq!(bench.command("restore nowhere 0x401004"), vec![report::FileFailure(2)]);
    assert_eq!(bench.command("restore trace zz"), says(complaint::NoAddress));
    assert!(bench.asked.iter().all(|request| request.starts_with("Say")));
}

#[test]
fn restore_of_a_snapshot_without_registers() {
    let mut bench = Bench::new(nops());
    bench.child.files.insert(String::from("partial"), Trace::New());
    assert_eq!(bench.command("restore partial 0x401004"), says(complaint::SnapshotIncomplete));
    assert_eq!(bench.child.regs.rip, 0x401005);
}

#[test]
fn script_of_restore() {
    let mut dbg = Debugger::New(Pid::from_raw(1));
    let dwarf = debug_info { entries: vec![], rows: vec![] };
    assert_eq!(dbg.handle_command("restore trace", &dwarf), dbg_cmd::Continue);
    assert_eq!(dbg.script, vec![op::Restore(None)]);
    assert_eq!(dbg.path, vec!['t', 'r', 'a', 'c', 'e']);
    let mut dbg = Debugger::New(Pid::from_raw(1));
    dbg.handle_command("restore other 0x401004", &dwarf);
    assert_eq!(dbg.script, vec![op::Restore(Some(0x401004))]);
    assert_eq!(dbg.path, vec!['o', 't', 'h', 'e', 'r']);
}

#[test]
fn restore_re_enters_where_the_snapshot_was_taken() {
    let mut bench = Bench::new(nops());
    bench.child.regs.rip = 0x401003;
    bench.child.regs.rax = 0x1234;
    let captured = bench.child.regs;
    bench.command("snapshot");
    bench.child.regs.rip = 0x401000;
    bench.child.regs.rax = 0;
    bench.command("memory w 0x7008 0xdeadbeef");
    assert!(bench.command("restore trace").is_empty());
    assert_eq!(bench.child.regs, captured);
    assert_eq!(bench.child.read_word(STACK + 8), Ok(0x8f8e_8d8c_8b8a_8988));
    assert_eq!(bench.child.byte(CODE + 3), 0x90);
    assert!(bench.asked.contains(&format!("ReadWord({})", 0x401003)));
    assert!(bench.asked.contains(&format!(
        "WriteWord({}, {})",
        0x401003, 0x9090_9090_9090_90ccu64
    )));
}

#[test]
fn restore_on_a_child_that_has_not_moved_on() {
    let mut bench = Bench::new(nops());
    bench.child.regs.rbx = 7;
    let captured = bench.child.regs;
    bench.command("snapshot");
    assert!(bench.command("restore trace").is_empty());
    assert_eq!(bench.child.regs, captured);
    assert_eq!(bench.child.byte(CODE), 0x90);
    assert_eq!(
        bench.command("registers r rip"),
        vec![report::RegisterValue(Register::Rip, shown::Hex(CODE as u64))]
    );
}

#[test]
fn restore_without_a_program_counter_to_go_to() {
    let mut bench = Bench::new(nops());
    bench.child.files.insert(String::from("partial"), Trace::New());
    assert_eq!(bench.command("restore partial"), says(complaint::SnapshotIncomplete));
    assert_eq!(bench.asked.len(), 2);
    assert!(bench.asked[0].starts_with("LoadTrace"));
    assert_eq!(bench.child.regs.rip, CODE as u64);
    assert!(!bench.dbg.trace_enabled);
}

#[test]
fn a_new_breakpoint_needs_an_address() {
    let dbg = Debugger::New(Pid::from_raw(1));
    let say = |what| vec![op::Say(report::Complaint(what))];
    assert_eq!(dbg.create_breakpoint(&vec![]), say(complaint::BreakpointArgumentMissing));
    assert_eq!(
        dbg.create_breakpoint(&vec!["break".chars().collect()]),
        say(complaint::BreakpointArgumentMissing)
    );
    assert_eq!(
        dbg.create_breakpoint(&vec!["break".chars().collect(), "zz".chars().collect()]),
        say(complaint::InvalidBreakpointAddress)
    );
    assert_eq!(
        dbg.create_breakpoint(&vec!["break".chars().collect(), "0x10".chars().collect()]),
        vec![op::Create(0x10)]
    );
}

#[test]
fn continue_steps_over_the_breakpoint_it_stopped_at() {
    let mut bench = Bench::new(nops());
    bench.command("break 0x401002");
    bench.command("continue");
    assert_eq!(bench.child.regs.rip, 0x401003);
    assert!(bench.command("continue").is_empty());
    assert_eq!(bench.child.regs.rip, 0x401010);
    assert_eq!(bench.child.byte(CODE + 2), 0xcc);
    assert_eq!(bench.rows(), vec![(0, true, 0x401002)]);
    assert_eq!(bench.dbg.bp_table.get(0).unwrap().saved_data, Some(0x90));
    let kinds: Vec<&str> =
        bench.asked.iter().map(|request| request.split('(').next().unwrap()).collect();
    assert_eq!(
        kinds,
        vec![
            "GetRegs", "ReadWord", "WriteWord", "GetRegs", "SetRegs", "Step", "Wait", "ReadWord",
            "WriteWord", "Cont", "Wait", "ShowSignal",
        ]
    );
    assert_eq!(bench.asked[1], format!("ReadWord({})", 0x401002));
    assert_eq!(bench.asked[2], format!("WriteWord({}, {})", 0x401002, 0x9090_9090_9090_9090u64));
    assert_eq!(bench.asked[8], format!("WriteWord({}, {})", 0x401002, 0x9090_9090_9090_90ccu64));
}

#[test]
fn continue_executes_the_instruction_under_the_breakpoint() {
    let mut bench = Bench::new(mov_hlt());
    bench.command("b 0x401000");
    bench.command("c");
    bench.command("c");
    assert_eq!(bench.child.regs.rax, 0x41);
    assert_eq!(bench.child.regs.rip, 0x401007);
    assert_eq!(bench.child.byte(CODE), 0xcc);
}

#[test]
fn continue_leaves_the_program_counter_alone_without_a_breakpoint() {
    let mut bench = Bench::new(nops());
    bench.child.regs.rip = 0x401005;
    bench.command("cont");
    assert_eq!(bench.asked, vec!["GetRegs", "Cont", "Wait", "ShowSignal"]);
    assert_eq!(bench.child.regs.rip, 0x401010);
}

#[test]
fn continue_passes_a_disarmed_breakpoint_by() {
    let mut bench = Bench::new(nops());
    bench.command("break 0x401002");
    bench.command("continue");
    bench.command("break disable 0");
    assert_eq!(bench.child.byte(CODE + 2), 0x90);
    bench.command("continue");
    assert_eq!(bench.asked, vec!["GetRegs", "Cont", "Wait", "ShowSignal"]);
    assert_eq!(bench.rows(), vec![(0, false, 0x401002)]);
}

#[test]
fn continue_with_the_program_counter_at_zero() {
    let mut bench = Bench::new(nops());
    bench.child.regs.rip = 0;
    bench.command("continue");
    assert_eq!(bench.asked, vec!["GetRegs", "Cont", "Wait", "ShowSignal"]);
}

#[test]
fn a_dead_child_fails_every_command_and_changes_no_breakpoint() {
    let mut bench = Bench::new(nops());
    bench.command("break 0x401002");
    bench.child.dead = true;
    assert_eq!(
        bench.command("continue"),
        vec![report::Failure(attempt::Registers, Errno::ESRCH)]
    );
    assert_eq!(bench.command("si"), vec![report::Failure(attempt::Resume, Errno::ESRCH)]);
    assert_eq!(
        bench.command("registers"),
        vec![report::Failure(attempt::Registers, Errno::ESRCH)]
    );
    assert_eq!(
        bench.command("registers w rax 1"),
        vec![report::Failure(attempt::RegisterWrite, Errno::ESRCH)]
    );
    assert_eq!(
        bench.command("memory r 0x401000"),
        vec![report::Failure(attempt::MemoryRead, Errno::ESRCH)]
    );
    assert_eq!(
        bench.command("memory w 0x401000 1"),
        vec![report::Failure(attempt::MemoryReadForWrite, Errno::ESRCH)]
    );
    assert_eq!(
        bench.command("break 0x401004"),
        vec![report::Failure(attempt::Breakpoint, Errno::ESRCH)]
    );
    assert_eq!(
        bench.command("break disable 0"),
        vec![report::Failure(attempt::Breakpoint, Errno::ESRCH)]
    );
    assert_eq!(
        bench.command("break delete 0"),
        vec![report::Failure(attempt::Breakpoint, Errno::ESRCH)]
    );
    assert_eq!(
        bench.command("snapshot"),
        vec![report::Failure(attempt::Registers, Errno::ESRCH)]
    );
    assert_eq!(bench.rows(), vec![(0, true, 0x401002)]);
    assert_eq!(bench.ended, None);
}

#[test]
fn a_breakpoint_that_cannot_be_read_is_not_added() {
    let mut bench = Bench::new(nops());
    assert_eq!(
        bench.command("break 0x900000"),
        vec![report::Failure(attempt::Breakpoint, Errno::EIO)]
    );
    assert!(bench.rows().is_empty());
    assert_eq!(bench.dbg.bp_table.len(), 0);
    assert_eq!(bench.command("break 0x401000"), vec![]);
    assert_eq!(bench.rows(), vec![(0, true, 0x401000)]);
}

#[test]
fn a_failed_write_ends_the_session() {
    let mut bench = Bench::new(nops());
    bench.child.read_only = true;
    bench.command("break 0x401000");
    assert_eq!(bench.fatal, Some(Errno::EFAULT));
    bench.reply(trace_reply::Done);
    assert_eq!(bench.waiting, trace_request::Fatal(Errno::EFAULT));
}

#[test]
fn a_failed_memory_write_ends_the_command() {
    let mut bench = Bench::new(nops());
    bench.child.read_only = true;
    assert_eq!(
        bench.command("memory w 0x7000 1"),
        vec![report::Failure(attempt::MemoryWrite, Errno::EFAULT)]
    );
    assert_eq!(bench.fatal, None);
    assert!(bench.command("memory r 0x7000").len() == 1);
}

#[test]
fn a_failed_write_back_ends_the_restore() {
    let mut bench = Bench::new(nops());
    bench.command("snapshot");
    bench.child.read_only = true;
    assert_eq!(
        bench.command("restore trace 0x401004"),
        vec![report::Failure(attempt::MemoryWrite, Errno::EFAULT)]
    );
    assert_eq!(bench.child.regs.rip, CODE as u64);
}

#[test]
fn words_are_dealt_out_to_the_regions_of_a_kind() {
    let regions = vec![
        addr_mapping::Heap(0x100, 0x110),
        addr_mapping::Stack(0x300, 0x320),
        addr_mapping::Heap(0x500, 0x518),
        addr_mapping::Heap(0x700, 0x700),
    ];
    assert_eq!(write_back(&regions, true), vec![op::Poke(true, 0x300, 0, 4)]);
    assert_eq!(
        write_back(&regions, false),
        vec![
            op::Poke(false, 0x100, 0, 2),
            op::Poke(false, 0x500, 2, 5),
            op::Poke(false, 0x700, 5, 5),
        ]
    );
    assert_eq!(
        write_back(&vec![addr_mapping::Heap(1, 2)], true),
        vec![op::Say(report::Complaint(complaint::StackNotRestored))]
    );
    assert_eq!(
        write_back(&vec![], false),
        vec![op::Say(report::Complaint(complaint::HeapNotRestored))]
    );
}

#[test]
fn restore_into_two_heap_regions() {
    let mut bench = Bench::new(nops());
    for i in 0..16 {
        bench.child.mem.insert(0x6000 + i, 0x40 + i as u8);
    }
    bench.child.maps = String::from(
        "5000-5010 rw-p 0 0 0 [heap]\n6000-6010 rw-p 0 0 0 [heap]\n7000-7020 rw-p 0 0 0 [stack]\n",
    );
    bench.command("snapshot");
    assert_eq!(
        bench.saved[0].get_heap(),
        &vec![
            0x1716_1514_1312_1110,
            0x1f1e_1d1c_1b1a_1918,
            0x4746_4544_4342_4140,
            0x4f4e_4d4c_4b4a_4948
        ]
    );
    for addr in [0x5000usize, 0x5008, 0x6000, 0x6008] {
        bench.child.write_word(addr, 0).unwrap();
    }
    bench.command("restore trace 0x401004");
    assert_eq!(bench.child.read_word(0x5000), Ok(0x1716_1514_1312_1110));
    assert_eq!(bench.child.read_word(0x5008), Ok(0x1f1e_1d1c_1b1a_1918));
    assert_eq!(bench.child.read_word(0x6000), Ok(0x4746_4544_4342_4140));
    assert_eq!(bench.child.read_word(0x6008), Ok(0x4f4e_4d4c_4b4a_4948));
}

#[test]
fn the_map_is_read_from_the_file_of_the_child() {
    let mut dbg = Debugger::New(Pid::from_raw(4242));
    let dwarf = debug_info { entries: vec![], rows: vec![] };
    let path: String = dbg.maps_file.iter().collect();
    assert_eq!(path, "/proc/4242/maps");
    dbg.run();
    dbg.resume(trace_reply::Done, &dwarf);
    dbg.resume(trace_reply::Line(String::from("snapshot")), &dwarf);
    let request = dbg.resume(trace_reply::Regs(RegisterBank::zeroed()), &dwarf);
    assert_eq!(request, trace_request::ReadMaps("/proc/4242/maps".chars().collect()));
}

#[test]
fn the_snapshot_is_written_to_its_file() {
    let mut bench = Bench::new(nops());
    bench.command("snapshot");
    assert!(bench.child.files.contains_key("trace"));
    assert_eq!(bench.child.files.len(), 1);
}

#[test]
fn a_map_that_cannot_be_read() {
    let mut dbg = Debugger::New(Pid::from_raw(1));
    let dwarf = debug_info { entries: vec![], rows: vec![] };
    dbg.run();
    dbg.resume(trace_reply::Done, &dwarf);
    dbg.resume(trace_reply::Line(String::from("snapshot")), &dwarf);
    dbg.resume(trace_reply::Regs(RegisterBank::zeroed()), &dwarf);
    assert_eq!(
        dbg.resume(trace_reply::FileFailed(13), &dwarf),
        trace_request::Say(report::FileFailure(13))
    );
    assert_eq!(dbg.resume(trace_reply::Done, &dwarf), trace_request::ReadLine);
    assert!(!dbg.trace_enabled);
}

#[test]
fn requests_for_memory() {
    let dbg = Debugger::New(Pid::from_raw(1));
    assert_eq!(dbg.read_mem(0x401000), trace_request::ReadWord(0x401000));
    assert_eq!(dbg.write_mem(0x401000, 7), trace_request::WriteWord(0x401000, 7));
}

#[test]
fn exit_and_restart() {
    let mut bench = Bench::new(nops());
    bench.command("exit");
    assert_eq!(bench.ended, Some(false));
    bench.reply(trace_reply::Done);
    assert_eq!(bench.waiting, trace_request::Return(false));
    let mut bench = Bench::new(nops());
    bench.command("restart");
    assert_eq!(bench.ended, Some(true));
    bench.reply(trace_reply::Line(String::from("continue")));
    assert_eq!(bench.waiting, trace_request::Return(true));
}

#[test]
fn verdict_of_a_command() {
    let dwarf = debug_info { entries: vec![], rows: vec![] };
    let mut dbg = Debugger::New(Pid::from_raw(1));
    assert_eq!(dbg.handle_command("exit", &dwarf), dbg_cmd::Exit);
    assert_eq!(dbg.handle_command("restart", &dwarf), dbg_cmd::Restart);
    assert_eq!(dbg.handle_command("exit now", &dwarf), dbg_cmd::Exit);
    assert_eq!(dbg.handle_command("", &dwarf), dbg_cmd::Continue);
    assert_eq!(dbg.handle_command("   ", &dwarf), dbg_cmd::Continue);
    assert_eq!(dbg.handle_command("Exit", &dwarf), dbg_cmd::Continue);
    assert_eq!(dbg.handle_command("continue", &dwarf), dbg_cmd::Continue);
}

#[test]
fn script_of_a_command() {
    let dwarf = debug_info { entries: vec![], rows: vec![] };
    let mut dbg = Debugger::New(Pid::from_raw(1));
    dbg.handle_command("si", &dwarf);
    assert_eq!(dbg.script, vec![op::Step, op::Wait]);
    dbg.handle_command("c", &dwarf);
    assert_eq!(dbg.script, vec![op::Continue, op::Step, op::Wait]);
    dbg.handle_command("", &dwarf);
    assert_eq!(dbg.script.len(), 3);
    dbg.handle_command("snapshot", &dwarf);
    assert_eq!(dbg.script[0], op::Snapshot);
    dbg.handle_command("b 0x10", &dwarf);
    assert_eq!(dbg.script[0], op::Create(0x10));
    dbg.handle_command("bogus", &dwarf);
    assert_eq!(dbg.script[0], op::Say(report::Complaint(complaint::InvalidCommand)));
}

#[test]
fn unknown_and_empty_commands() {
    let mut bench = Bench::new(nops());
    assert_eq!(bench.command("frobnicate"), says(complaint::InvalidCommand));
    assert_eq!(bench.command("CONTINUE"), says(complaint::InvalidCommand));
    assert!(bench.command("").is_empty());
    assert!(bench.command("     ").is_empty());
    assert!(bench.asked.is_empty());
}

#[test]
fn blanks_between_the_words_of_a_command() {
    let mut bench = Bench::new(nops());
    assert!(bench.command("   break    0x401000   ").is_empty());
    assert_eq!(bench.rows(), vec![(0, true, 0x401000)]);
    assert_eq!(
        bench.command("registers\t r \trax\t"),
        vec![report::RegisterValue(Register::Rax, shown::Hex(0))]
    );
}

#[test]
fn breakpoint_commands_that_lack_something() {
    let mut bench = Bench::new(nops());
    assert_eq!(bench.command("break"), says(complaint::BreakpointArgumentMissing));
    assert_eq!(bench.command("b zz"), says(complaint::InvalidBreakpointAddress));
    assert_eq!(bench.command("b disable"), says(complaint::IndexMissing));
    assert_eq!(bench.command("b e"), says(complaint::IndexMissing));
    assert_eq!(bench.command("b de"), says(complaint::IndexMissing));
    assert_eq!(bench.command("b delete zz"), says(complaint::InvalidIndex));
    assert_eq!(bench.command("b delete 0"), says(complaint::NoSuchBreakpoint));
    assert_eq!(bench.command("b enable 3"), says(complaint::NoSuchBreakpoint));
    bench.command("b 0x401000");
    bench.command("b delete 0");
    assert_eq!(bench.command("b disable 0"), says(complaint::NoSuchBreakpoint));
    assert_eq!(bench.command("b l"), vec![report::BreakpointHeader]);
}

#[test]
fn disable_and_enable_a_breakpoint() {
    let mut bench = Bench::new(mov_hlt());
    bench.command("breakpoint 0x401000");
    assert!(bench.command("b d 0").is_empty());
    assert_eq!(bench.child.byte(CODE), 0x48);
    assert_eq!(bench.rows(), vec![(0, false, 0x401000)]);
    assert!(bench.command("b e 0").is_empty());
    assert_eq!(bench.child.byte(CODE), 0xcc);
    assert_eq!(bench.rows(), vec![(0, true, 0x401000)]);
    assert!(bench.command("b enable 0").is_empty());
    assert_eq!(bench.dbg.bp_table.get(0).unwrap().saved_data, Some(0x48));
    assert!(bench.command("b de 0").is_empty());
    assert_eq!(bench.child.byte(CODE), 0x48);
    assert!(bench.rows().is_empty());
}

#[test]
fn a_decimal_address_is_an_address() {
    let mut bench = Bench::new(nops());
    bench.command("break 4198400");
    assert_eq!(bench.rows(), vec![(0, true, 0x401000)]);
}

#[test]
fn dump_of_all_registers() {
    let mut bench = Bench::new(nops());
    bench.child.regs.r15 = 15;
    let rows = bench.command("registers");
    assert_eq!(rows.len(), 27);
    assert_eq!(rows[0], report::RegisterValue(Register::Rax, shown::Hex(0)));
    assert_eq!(rows[7], report::RegisterValue(Register::Rsp, shown::Hex((STACK + 16) as u64)));
    assert_eq!(rows[8], report::RegisterValue(Register::Rip, shown::Hex(CODE as u64)));
    assert_eq!(rows[16], report::RegisterValue(Register::R15, shown::Hex(15)));
    assert_eq!(rows[26], report::RegisterValue(Register::OrigRax, shown::Hex(0)));
    assert_eq!(bench.asked[0], "GetRegs");
}

#[test]
fn registers_read_at_a_width_and_radix() {
    let mut bench = Bench::new(nops());
    bench.child.regs.rax = 0x1122_3344_5566_7788;
    bench.child.regs.rbx = 0xffff_ffff_ffff_ffff;
    assert_eq!(
        bench.command("regs ru2 rax bogus rbx"),
        vec![
            report::RegisterValue(Register::Rax, shown::Unsigned(0x7788)),
            report::RegisterValue(Register::Rbx, shown::Unsigned(0xffff)),
        ]
    );
    assert_eq!(
        bench.command("r rd1 rbx"),
        vec![report::RegisterValue(Register::Rbx, shown::Signed(-1))]
    );
    assert_eq!(
        bench.command("r rx rax"),
        vec![report::RegisterValue(Register::Rax, shown::Hex(0x1122_3344_5566_7788))]
    );
}

#[test]
fn registers_read_as_signed_numbers() {
    let mut bench = Bench::new(nops());
    bench.child.regs.rax = 0x1122_3344_5566_7f80;
    assert_eq!(
        bench.command("r rd1 rax"),
        vec![report::RegisterValue(Register::Rax, shown::Signed(-128))]
    );
    assert_eq!(
        bench.command("r rd2 rax"),
        vec![report::RegisterValue(Register::Rax, shown::Signed(0x7f80))]
    );
    assert_eq!(
        bench.command("m rd1 0x7000"),
        vec![report::MemoryValue(0x7000, shown::Signed(-128))]
    );
}

#[test]
fn register_commands_that_are_refused() {
    let mut bench = Bench::new(nops());
    assert_eq!(bench.command("registers q rax"), vec![report::Format(FormatError::JunkCharacters)]);
    assert_eq!(bench.command("registers x rax"), vec![report::Format(FormatError::NoDirection)]);
    assert_eq!(bench.command("registers rw rax"), vec![report::Format(FormatError::MultipleDirections)]);
    assert_eq!(bench.command("registers w rax zz"), says(complaint::InvalidRegisterValue));
    assert_eq!(bench.command("registers w bogus 1"), says(complaint::InvalidRegisterName));
    assert_eq!(bench.command("registers w bogus zz"), says(complaint::InvalidRegisterValue));
    assert!(bench.command("registers r").is_empty());
    assert!(bench.command("registers w rax").is_empty());
    assert!(bench.command("registers w rax 1 2").is_empty());
    assert_eq!(bench.child.regs.rax, 0);
}

#[test]
fn memory_read_at_a_width() {
    let mut bench = Bench::new(nops());
    assert_eq!(
        bench.command("memory r 0x7000"),
        vec![report::MemoryValue(0x7000, shown::Hex(0x8786_8584_8382_8180))]
    );
    assert_eq!(
        bench.command("mem r1 0x7000"),
        vec![report::MemoryValue(0x7000, shown::Hex(0x80))]
    );
    assert_eq!(
        bench.command("m ru4 0x7003"),
        vec![report::MemoryValue(0x7003, shown::Unsigned(0x8685_8483))]
    );
}

#[test]
fn a_sub_word_memory_write_keeps_the_bytes_above() {
    let mut bench = Bench::new(nops());
    assert!(bench.command("memory w1 0x7000 0xff").is_empty());
    assert_eq!(bench.child.read_word(0x7000), Ok(0x8786_8584_8382_81ff));
    assert!(bench.command("memory w2 0x7010 0x1234567").is_empty());
    assert_eq!(bench.child.read_word(0x7010), Ok(0x9796_9594_9392_4567));
    assert!(bench.command("memory w 0x7008 0").is_empty());
    assert_eq!(bench.child.read_word(0x7008), Ok(0));
    assert_eq!(bench.child.byte(0x7010), 0x67);
}

#[test]
fn memory_commands_that_are_refused() {
    let mut bench = Bench::new(nops());
    assert_eq!(bench.command("memory"), says(complaint::MemoryUsage));
    assert_eq!(bench.command("memory r"), says(complaint::MemoryUsage));
    assert_eq!(bench.command("memory r zz"), says(complaint::NoAddress));
    assert_eq!(bench.command("memory w zz 1"), says(complaint::NoAddress));
    assert_eq!(bench.command("memory w 0x7000 zz"), says(complaint::InvalidMemoryValue));
    assert_eq!(bench.command("memory z 0x7000"), vec![report::Format(FormatError::JunkCharacters)]);
    assert_eq!(bench.command("memory 4 0x7000"), vec![report::Format(FormatError::NoDirection)]);
    assert!(bench.command("memory r 0x7000 1").is_empty());
    assert!(bench.command("memory w 0x7000").is_empty());
    assert_eq!(
        bench.command("memory r 0x900000"),
        vec![report::Failure(attempt::MemoryRead, Errno::EIO)]
    );
    assert_eq!(bench.child.read_word(0x7000), Ok(0x8786_8584_8382_8180));
}

#[test]
fn the_dwarf_command_reports_the_subprogram_and_the_lines() {
    let mut bench = Bench::new(nops());
    bench.dwarf = debug_info {
        entries: vec![
            debug_entry { tag: 0x11, low_pc: Some(attr_value::Addr(0)), high_pc: Some(attr_value::Udata(0x2000)) },
            debug_entry {
                tag: DW_TAG_subprogram,
                low_pc: Some(attr_value::Addr(0x1130)),
                high_pc: Some(attr_value::Udata(0x20)),
            },
        ],
        rows: vec![
            line_row { address: 0x1130, file: file_name::LineString(String::from("main.c")) },
            line_row { address: 0x1134, file: file_name::Other },
        ],
    };
    assert_eq!(
        bench.command("dwarf"),
        vec![
            report::Subprogram(1),
            report::Line(line_report::Address(0x1130)),
            report::Line(line_report::OwnerFile(0)),
            report::Line(line_report::Address(0x1134)),
        ]
    );
    bench.dwarf = debug_info { entries: vec![], rows: vec![] };
    assert!(bench.command("dwarf").is_empty());
}

#[test]
fn a_reply_that_does_not_answer_the_request() {
    let dwarf = debug_info { entries: vec![], rows: vec![] };
    let mut dbg = Debugger::New(Pid::from_raw(1));
    dbg.run();
    dbg.resume(trace_reply::Done, &dwarf);
    assert_eq!(dbg.resume(trace_reply::Line(String::from("continue")), &dwarf), trace_request::GetRegs);
    assert_eq!(
        dbg.resume(trace_reply::Word(5), &dwarf),
        trace_request::Say(report::Complaint(complaint::UnexpectedReply))
    );
    assert_eq!(dbg.resume(trace_reply::Done, &dwarf), trace_request::ReadLine);
    assert_eq!(
        dbg.resume(trace_reply::Regs(RegisterBank::zeroed()), &dwarf),
        trace_request::Say(report::Complaint(complaint::UnexpectedReply))
    );
}

#[test]
fn planning_continue_from_the_table() {
    let mut dbg = Debugger::New(Pid::from_raw(1));
    let mut bp = breakpoint::New(Pid::from_raw(1), 0x401000);
    bp.enable(Ok(0x90)).unwrap();
    dbg.bp_table.insert(bp).unwrap();
    let mut regs = RegisterBank::zeroed();
    regs.rip = 0x401001;
    assert_eq!(
        dbg.continue_exec(&regs),
        vec![
            op::Disarm(0),
            op::WriteReg(Register::Rip, 0x401000, 8),
            op::Step,
            op::Wait,
            op::Arm(0),
            op::Cont,
            op::Wait,
            op::ShowSignal,
        ]
    );
    regs.rip = 0x401000;
    assert_eq!(dbg.continue_exec(&regs), vec![op::Cont, op::Wait, op::ShowSignal]);
    regs.rip = 0x401002;
    assert_eq!(dbg.continue_exec(&regs), vec![op::Cont, op::Wait, op::ShowSignal]);
}
