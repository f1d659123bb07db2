//! Laws of the session: what the turns of the state machine keep and what
//! they bring about.
use vstd::prelude::*;
use crate::breakpoint::{
    breakpoint, holds_addr, index_of_addr, live_at, low_byte, unique_addresses, with_low_byte,
    TRAP_BYTE,
};
use crate::child::{reply_view, request_view};
use crate::debugger::{
    as_address, breakpoint_plan, command_plan, continue_plan, dwarf_plan, list_plan, mem_plan, op, regs_plan,
    restore_plan, show_plan,
};
use crate::dwarf_functionality::debug_info;
use crate::format::{lemma_overlay_keeps_high_bits, overlaid, rw_formatting, POINTER_WIDTH};
use crate::registers::{Register, RegisterBank};
use crate::session::{
    begun, capture_plan, dump_plan, issue, poke_plan, poke_steps, react, reentry_of,
    reentry_plan, request_of, session, snapshot_begun, turn, with_captured, words_of,
};
use crate::trace::{addr_mapping, WORD_BYTES};

verus! {

/// Handing out the next request changes the script and the step that
/// waits for its reply, and nothing else.
pub proof fn lemma_issue_frame(s: session)
    ensures
        issue(s).0.pid == s.pid,
        issue(s).0.table == s.table,
        issue(s).0.trace == s.trace,
        issue(s).0.trace_enabled == s.trace_enabled,
        issue(s).0.reentry == s.reentry,
        issue(s).0.path == s.path,
        issue(s).0.maps_file == s.maps_file,
    decreases s.script.len(),
{
    if s.script.len() > 0 {
        lemma_issue_frame(session { script: s.script.subrange(1, s.script.len() as int), ..s });
    }
}

/// The table of breakpoints changes only when a word has been read for a
/// step that arms, disarms, deletes or creates a breakpoint. In particular
/// a tracing operation that fails changes no breakpoint, and neither does a
/// command that is refused.
pub proof fn lemma_table_changes_on_words_only(
    s: session,
    reply: reply_view,
    dwarf_info: debug_info,
)
    requires
        !(reply is Word) || !(s.current is Arm || s.current is Disarm || s.current is Delete
            || s.current is Create),
    ensures
        turn(s, reply, dwarf_info).0.table == s.table,
{
    reveal(turn);
    lemma_issue_frame(react(s, reply, dwarf_info));
}

/// Whatever the reply, no address is live twice in the table afterwards
/// where none was before, and no slot of the table is taken away.
pub proof fn lemma_turn_keeps_unique(s: session, reply: reply_view, dwarf_info: debug_info)
    requires
        unique_addresses(s.table),
    ensures
        unique_addresses(turn(s, reply, dwarf_info).0.table),
        turn(s, reply, dwarf_info).0.table.len() >= s.table.len(),
{
    reveal(turn);
    let after = react(s, reply, dwarf_info);
    lemma_issue_frame(after);
    let slots = s.table;
    let next = after.table;
    assert forall|i: int, j: int|
        live_at(next, i) && live_at(next, j) && (#[trigger] next[i])->0.addr == (
        #[trigger] next[j])->0.addr implies i == j by {
        if i < slots.len() {
            assert(live_at(slots, i) && slots[i]->0.addr == next[i]->0.addr);
        }
        if j < slots.len() {
            assert(live_at(slots, j) && slots[j]->0.addr == next[j]->0.addr);
        }
    }
}

/// The registers that a restore puts back are those that the snapshot
/// captured: in any state whose snapshot holds the registers that a
/// snapshot begun with `bank` holds, the step that restores the registers
/// asks for exactly `bank` to be written.
pub proof fn lemma_snapshot_registers_return(s: session, bank: RegisterBank, later: session)
    requires
        later.trace.regs == snapshot_begun(s, bank).trace.regs,
    ensures
        request_of(later, op::RestoreRegs) == Some(request_view::SetRegs(bank)),
{
    crate::registers::lemma_bank_round_trip(bank);
}

/// Where a restore is given no re-entry program counter, the child is
/// re-entered at the program counter that the snapshot captured: that of
/// the registers with which the snapshot was begun.
pub proof fn lemma_reentry_is_captured_pc(s: session, bank: RegisterBank)
    ensures
        reentry_of(None, snapshot_begun(s, bank).trace) == as_address(bank.rip),
{
}

/// Where the first step of the script has a request, that request is the
/// next, and the step waits for its reply.
pub proof fn lemma_issue_first(s: session)
    requires
        s.script.len() > 0,
        request_of(s, s.script[0]) is Some,
    ensures
        issue(s) == (
            session {
                current: s.script[0],
                script: s.script.subrange(1, s.script.len() as int),
                ..s
            },
            request_of(s, s.script[0])->0,
        ),
{
}

/// A state with a table, a script and a waiting step of its own, and all
/// else as in `s`.
pub open spec fn at(
    s: session,
    table: Seq<Option<breakpoint>>,
    current: op,
    script: Seq<op>,
) -> session {
    session { table, current, script, ..s }
}

/// One turn in which the reply changes nothing, and the script goes on
/// with its first step.
pub proof fn lemma_turn_on(
    s: session,
    dwarf_info: debug_info,
    table: Seq<Option<breakpoint>>,
    current: op,
    step: op,
    rest: Seq<op>,
)
    requires
        current is Step || current is Wait || current is Cont || current is ShowSignal
            || current is Write || current is PutRegs,
        request_of(at(s, table, current, seq![step] + rest), step) is Some,
    ensures
        turn(at(s, table, current, seq![step] + rest), reply_view::Done, dwarf_info) == (
            at(s, table, step, rest),
            request_of(at(s, table, current, seq![step] + rest), step)->0,
        ),
{
    reveal(turn);
    let x = at(s, table, current, seq![step] + rest);
    assert(react(x, reply_view::Done, dwarf_info) == x);
    assert(x.script.subrange(1, x.script.len() as int) =~= rest);
    lemma_issue_first(x);
}

/// The turn after the last step of a script: the next command is read.
pub proof fn lemma_turn_to_prompt(
    s: session,
    dwarf_info: debug_info,
    table: Seq<Option<breakpoint>>,
    current: op,
)
    requires
        current is Step || current is Wait || current is Cont || current is ShowSignal
            || current is Write || current is PutRegs,
    ensures
        turn(at(s, table, current, Seq::empty()), reply_view::Done, dwarf_info) == (
            at(s, table, op::Prompt, Seq::empty()),
            request_view::ReadLine,
        ),
{
    reveal(turn);
    let x = at(s, table, current, Seq::empty());
    assert(react(x, reply_view::Done, dwarf_info) == x);
}

/// The turn in which a breakpoint is disarmed: the word to write back has
/// the saved byte, and the breakpoint is disarmed in the table.
pub proof fn lemma_turn_disarm(
    s: session,
    dwarf_info: debug_info,
    table: Seq<Option<breakpoint>>,
    idx: usize,
    word: u64,
    rest: Seq<op>,
)
    requires
        live_at(table, idx as int),
    ensures
        ({
            let bp = table[idx as int]->0;
            turn(at(s, table, op::Disarm(idx), rest), reply_view::Word(word), dwarf_info) == (
                at(
                    s,
                    table.update(idx as int, Some(bp.disarmed())),
                    op::Write(bp.addr, bp.restored_word(word)),
                    rest,
                ),
                request_view::WriteWord(bp.addr, bp.restored_word(word)),
            )
        }),
{
    reveal(turn);
    let bp = table[idx as int]->0;
    let x = at(s, table, op::Disarm(idx), rest);
    let r = react(x, reply_view::Word(word), dwarf_info);
    let write = op::Write(bp.addr, bp.restored_word(word));
    assert(r == at(
        s,
        table.update(idx as int, Some(bp.disarmed())),
        op::Disarm(idx),
        seq![write] + rest,
    ));
    assert(r.script.subrange(1, r.script.len() as int) =~= rest);
    lemma_issue_first(r);
}

/// The turn in which a breakpoint is armed: the word to write back has the
/// trap instruction, and the breakpoint is armed in the table.
pub proof fn lemma_turn_arm(
    s: session,
    dwarf_info: debug_info,
    table: Seq<Option<breakpoint>>,
    idx: usize,
    word: u64,
    rest: Seq<op>,
)
    requires
        live_at(table, idx as int),
    ensures
        ({
            let bp = table[idx as int]->0;
            turn(at(s, table, op::Arm(idx), rest), reply_view::Word(word), dwarf_info) == (
                at(
                    s,
                    table.update(idx as int, Some(bp.armed_over(word))),
                    op::Write(bp.addr, with_low_byte(word, TRAP_BYTE)),
                    rest,
                ),
                request_view::WriteWord(bp.addr, with_low_byte(word, TRAP_BYTE)),
            )
        }),
{
    reveal(turn);
    let bp = table[idx as int]->0;
    let x = at(s, table, op::Arm(idx), rest);
    let r = react(x, reply_view::Word(word), dwarf_info);
    let write = op::Write(bp.addr, with_low_byte(word, TRAP_BYTE));
    assert(r == at(
        s,
        table.update(idx as int, Some(bp.armed_over(word))),
        op::Arm(idx),
        seq![write] + rest,
    ));
    assert(r.script.subrange(1, r.script.len() as int) =~= rest);
    lemma_issue_first(r);
}

/// The turn in which a register is written: the registers that were read
/// are written back with the low bytes of the one register replaced.
pub proof fn lemma_turn_write_reg(
    s: session,
    dwarf_info: debug_info,
    table: Seq<Option<breakpoint>>,
    reg: Register,
    val: u64,
    n_bytes: u8,
    bank: RegisterBank,
    rest: Seq<op>,
)
    ensures
        ({
            let changed = bank.spec_set(reg, overlaid(n_bytes, bank.spec_get(reg), val));
            turn(
                at(s, table, op::WriteReg(reg, val, n_bytes), rest),
                reply_view::Regs(bank),
                dwarf_info,
            ) == (at(s, table, op::PutRegs(changed), rest), request_view::SetRegs(changed))
        }),
{
    reveal(turn);
    let changed = bank.spec_set(reg, overlaid(n_bytes, bank.spec_get(reg), val));
    let x = at(s, table, op::WriteReg(reg, val, n_bytes), rest);
    let r = react(x, reply_view::Regs(bank), dwarf_info);
    assert(r == at(s, table, op::WriteReg(reg, val, n_bytes), seq![op::PutRegs(changed)] + rest));
    assert(r.script.subrange(1, r.script.len() as int) =~= rest);
    lemma_issue_first(r);
}

/// The first turn of `continue` where the child has stopped on the live,
/// armed breakpoint in slot `idx`: the way over the breakpoint is planned
/// and its first request is made.
pub proof fn lemma_turn_continue(s: session, dwarf_info: debug_info, idx: usize, bank: RegisterBank)
    requires
        unique_addresses(s.table),
        s.current == op::Continue,
        s.script.len() == 0,
        live_at(s.table, idx as int),
        s.table[idx as int]->0.enabled,
        bank.rip == s.table[idx as int]->0.addr + 1,
    ensures
        ({
            let a = s.table[idx as int]->0.addr;
            turn(s, reply_view::Regs(bank), dwarf_info) == (
                at(
                    s,
                    s.table,
                    op::Disarm(idx),
                    seq![
                        op::WriteReg(Register::Rip, a as u64, POINTER_WIDTH),
                        op::Step,
                        op::Wait,
                        op::Arm(idx),
                        op::Cont,
                        op::Wait,
                        op::ShowSignal,
                    ],
                ),
                request_view::ReadWord(a),
            )
        }),
{
    reveal(turn);
    let a = s.table[idx as int]->0.addr;
    let rest = seq![
        op::WriteReg(Register::Rip, a as u64, POINTER_WIDTH),
        op::Step,
        op::Wait,
        op::Arm(idx),
        op::Cont,
        op::Wait,
        op::ShowSignal,
    ];
    assert(holds_addr(s.table, a));
    assert(index_of_addr(s.table, a) == idx);
    let r = react(s, reply_view::Regs(bank), dwarf_info);
    assert(continue_plan(s.table, bank.rip) =~= seq![op::Disarm(idx)] + rest);
    assert(r.script =~= seq![op::Disarm(idx)] + rest);
    assert(r == at(s, s.table, op::Continue, seq![op::Disarm(idx)] + rest));
    assert(r.script.subrange(1, r.script.len() as int) =~= rest);
    lemma_issue_first(r);
}

/// The turn in which a word of a region is captured: the word is added to
/// the snapshot, and where the region has a further word, that word is
/// asked for next, at the next address.
pub proof fn lemma_turn_capture(
    s: session,
    dwarf_info: debug_info,
    region: addr_mapping,
    i: usize,
    word: u64,
)
    requires
        s.current == op::Capture(region, i),
        i < region.spec_words(),
    ensures
        ({
            let t = turn(s, reply_view::Word(word), dwarf_info);
            &&& t.0.trace == with_captured(s.trace, region, word)
            &&& t.0.table == s.table
            &&& i + 1 < region.spec_words() ==> t.0.current == op::Capture(region, (i + 1) as usize)
                && t.0.script == s.script && t.1 == request_view::ReadWord(
                (region.spec_start() + (i + 1) * WORD_BYTES) as usize,
            )
        }),
{
    reveal(turn);
    let r = react(s, reply_view::Word(word), dwarf_info);
    lemma_issue_frame(r);
    if i + 1 < region.spec_words() {
        assert(r.script.subrange(1, r.script.len() as int) =~= s.script);
        lemma_issue_first(r);
    }
}

/// The state after the words of a region have been handed over one by one
/// as they were asked for.
pub open spec fn captured(s: session, dwarf_info: debug_info, words: Seq<u64>) -> session
    decreases words.len(),
{
    if words.len() == 0 {
        s
    } else {
        captured(
            turn(s, reply_view::Word(words[0]), dwarf_info).0,
            dwarf_info,
            words.subrange(1, words.len() as int),
        )
    }
}

/// A region that is captured from a word on to its end adds as many words
/// to the snapshot as it has left, in the order in which they were read,
/// that is in ascending order of address, and changes nothing else of the
/// snapshot.
pub proof fn lemma_capture_adds_words(
    s: session,
    dwarf_info: debug_info,
    region: addr_mapping,
    i: usize,
    words: Seq<u64>,
)
    requires
        s.current == op::Capture(region, i),
        i + words.len() == region.spec_words(),
    ensures
        captured(s, dwarf_info, words).trace.regs == s.trace.regs,
        region is Stack ==> captured(s, dwarf_info, words).trace.stack == s.trace.stack + words
            && captured(s, dwarf_info, words).trace.heap == s.trace.heap,
        region is Heap ==> captured(s, dwarf_info, words).trace.heap == s.trace.heap + words
            && captured(s, dwarf_info, words).trace.stack == s.trace.stack,
    decreases words.len(),
{
    if words.len() == 0 {
        assert(s.trace.stack + words =~= s.trace.stack);
        assert(s.trace.heap + words =~= s.trace.heap);
    } else {
        let rest = words.subrange(1, words.len() as int);
        let t = turn(s, reply_view::Word(words[0]), dwarf_info);
        lemma_turn_capture(s, dwarf_info, region, i, words[0]);
        if rest.len() > 0 {
            lemma_capture_adds_words(t.0, dwarf_info, region, (i + 1) as usize, rest);
        } else {
            assert(captured(t.0, dwarf_info, rest) == t.0);
        }
        assert(s.trace.stack.push(words[0]) + rest =~= s.trace.stack + words);
        assert(s.trace.heap.push(words[0]) + rest =~= s.trace.heap + words);
    }
}

/// The turn in which a word of a snapshot has been written back: the next
/// word, where the region and the snapshot have one, is written at the
/// next address.
pub proof fn lemma_turn_poke(
    s: session,
    dwarf_info: debug_info,
    stack: bool,
    addr: usize,
    i: usize,
    end: usize,
)
    requires
        s.current == op::Poke(stack, addr, i, end),
        i + 1 < end,
        i + 1 < words_of(s.trace, stack).len(),
        addr + WORD_BYTES <= usize::MAX,
    ensures
        ({
            let t = turn(s, reply_view::Done, dwarf_info);
            &&& t.0 == session {
                current: op::Poke(stack, (addr + WORD_BYTES) as usize, (i + 1) as usize, end),
                ..s
            }
            &&& t.1 == request_view::WriteWord(
                (addr + WORD_BYTES) as usize,
                words_of(s.trace, stack)[i + 1],
            )
        }),
{
    reveal(turn);
    let r = react(s, reply_view::Done, dwarf_info);
    assert(r.script.subrange(1, r.script.len() as int) =~= s.script);
    lemma_issue_first(r);
}

/// Continuing over a breakpoint. The child has stopped on the live, armed
/// breakpoint in slot `idx`, so its program counter stands one past the
/// address of the breakpoint. Then `continue` asks, in this order: to read
/// the word at the breakpoint and write it back with the saved byte; to
/// read the registers and write them back with the program counter on the
/// breakpoint; to execute one instruction and wait; to read the word
/// again and write it back with the trap instruction; to let the child
/// run, to wait for it and to show the signal. After that the next command
/// is read, the breakpoint is armed, and no other slot has changed.
pub proof fn lemma_continue_over_breakpoint(
    s: session,
    dwarf_info: debug_info,
    idx: usize,
    bank: RegisterBank,
    first_word: u64,
    later_bank: RegisterBank,
    second_word: u64,
)
    requires
        unique_addresses(s.table),
        s.current == op::Continue,
        s.script.len() == 0,
        live_at(s.table, idx as int),
        s.table[idx as int]->0.enabled,
        bank.rip == s.table[idx as int]->0.addr + 1,
    ensures
        ({
            let bp = s.table[idx as int]->0;
            let t1 = turn(s, reply_view::Regs(bank), dwarf_info);
            let t2 = turn(t1.0, reply_view::Word(first_word), dwarf_info);
            let t3 = turn(t2.0, reply_view::Done, dwarf_info);
            let t4 = turn(t3.0, reply_view::Regs(later_bank), dwarf_info);
            let t5 = turn(t4.0, reply_view::Done, dwarf_info);
            let t6 = turn(t5.0, reply_view::Done, dwarf_info);
            let t7 = turn(t6.0, reply_view::Done, dwarf_info);
            let t8 = turn(t7.0, reply_view::Word(second_word), dwarf_info);
            let t9 = turn(t8.0, reply_view::Done, dwarf_info);
            let t10 = turn(t9.0, reply_view::Done, dwarf_info);
            let t11 = turn(t10.0, reply_view::Done, dwarf_info);
            let t12 = turn(t11.0, reply_view::Done, dwarf_info);
            &&& t1.1 == request_view::ReadWord(bp.addr)
            &&& t2.1 == request_view::WriteWord(bp.addr, bp.restored_word(first_word))
            &&& t3.1 == request_view::GetRegs
            &&& t4.1 == request_view::SetRegs(
                later_bank.spec_set(Register::Rip, bp.addr as u64),
            )
            &&& t5.1 == request_view::Step
            &&& t6.1 == request_view::Wait
            &&& t7.1 == request_view::ReadWord(bp.addr)
            &&& t8.1 == request_view::WriteWord(bp.addr, with_low_byte(second_word, TRAP_BYTE))
            &&& t9.1 == request_view::Cont
            &&& t10.1 == request_view::Wait
            &&& t11.1 == request_view::ShowSignal
            &&& t12.1 == request_view::ReadLine
            &&& t12.0.table == s.table.update(
                idx as int,
                Some(breakpoint { saved_data: Some(low_byte(second_word)), ..bp }),
            )
        }),
{
    let bp = s.table[idx as int]->0;
    let a = bp.addr;
    let back = op::WriteReg(Register::Rip, a as u64, POINTER_WIDTH);
    let put = op::PutRegs(later_bank.spec_set(Register::Rip, a as u64));
    let restore = op::Write(a, bp.restored_word(first_word));
    let trap = op::Write(a, with_low_byte(second_word, TRAP_BYTE));
    let slots = s.table;
    let disarmed = slots.update(idx as int, Some(bp.disarmed()));
    let armed = slots.update(
        idx as int,
        Some(breakpoint { saved_data: Some(low_byte(second_word)), ..bp }),
    );
    let tail = seq![op::Cont, op::Wait, op::ShowSignal];
    let after_step = seq![op::Wait, op::Arm(idx), op::Cont, op::Wait, op::ShowSignal];
    let after_back = seq![op::Step, op::Wait, op::Arm(idx), op::Cont, op::Wait, op::ShowSignal];
    let after_disarm = seq![
        back,
        op::Step,
        op::Wait,
        op::Arm(idx),
        op::Cont,
        op::Wait,
        op::ShowSignal,
    ];
    lemma_turn_continue(s, dwarf_info, idx, bank);
    lemma_turn_disarm(s, dwarf_info, slots, idx, first_word, after_disarm);
    assert(after_disarm =~= seq![back] + after_back);
    lemma_turn_on(s, dwarf_info, disarmed, restore, back, after_back);
    lemma_overlay_keeps_high_bits(POINTER_WIDTH, later_bank.spec_get(Register::Rip), a as u64);
    lemma_turn_write_reg(
        s,
        dwarf_info,
        disarmed,
        Register::Rip,
        a as u64,
        POINTER_WIDTH,
        later_bank,
        after_back,
    );
    assert(after_back =~= seq![op::Step] + after_step);
    lemma_turn_on(s, dwarf_info, disarmed, put, op::Step, after_step);
    assert(after_step =~= seq![op::Wait] + (seq![op::Arm(idx)] + tail));
    lemma_turn_on(s, dwarf_info, disarmed, op::Step, op::Wait, seq![op::Arm(idx)] + tail);
    lemma_turn_on(s, dwarf_info, disarmed, op::Wait, op::Arm(idx), tail);
    lemma_turn_arm(s, dwarf_info, disarmed, idx, second_word, tail);
    assert(disarmed.update(idx as int, Some(bp.disarmed().armed_over(second_word))) =~= armed);
    assert(tail =~= seq![op::Cont] + seq![op::Wait, op::ShowSignal]);
    lemma_turn_on(s, dwarf_info, armed, trap, op::Cont, seq![op::Wait, op::ShowSignal]);
    assert(seq![op::Wait, op::ShowSignal] =~= seq![op::Wait] + seq![op::ShowSignal]);
    lemma_turn_on(s, dwarf_info, armed, op::Cont, op::Wait, seq![op::ShowSignal]);
    assert(seq![op::ShowSignal] =~= seq![op::ShowSignal] + Seq::<op>::empty());
    lemma_turn_on(s, dwarf_info, armed, op::Wait, op::ShowSignal, Seq::empty());
    lemma_turn_to_prompt(s, dwarf_info, armed, op::ShowSignal);
}


/// Whether a step lets the child run.
pub open spec fn runs(step: op) -> bool {
    step is Cont || step is Step
}

/// Every step of a script that lets the child run is followed at once by
/// the step that waits for it.
pub open spec fn waits_after_running(script: Seq<op>) -> bool {
    forall|i: int|
        0 <= i < script.len() && runs(#[trigger] script[i]) ==> i + 1 < script.len() && script[i
            + 1] is Wait
}

/// No step of a script lets the child run.
pub open spec fn never_runs(script: Seq<op>) -> bool {
    forall|i: int| 0 <= i < script.len() ==> !runs(#[trigger] script[i])
}

/// The state of a session in which the child is waited for after every
/// run: its script is so, and where the step that waits for its reply has
/// let the child run, the wait comes next.
pub open spec fn waits(s: session) -> bool {
    &&& waits_after_running(s.script)
    &&& runs(s.current) ==> s.script.len() > 0 && s.script[0] is Wait
}

proof fn lemma_joined(a: Seq<op>, b: Seq<op>)
    requires
        waits_after_running(a),
        waits_after_running(b),
    ensures
        waits_after_running(a + b),
{
    let both = a + b;
    assert forall|i: int| 0 <= i < both.len() && runs(#[trigger] both[i]) implies i + 1
        < both.len() && both[i + 1] is Wait by {
        if i < a.len() {
            assert(runs(a[i]));
            assert(both[i + 1] == a[i + 1]);
        } else {
            assert(runs(b[i - a.len()]));
            assert(both[i + 1] == b[i - a.len() + 1]);
        }
    }
}

proof fn lemma_show_plan(names: Seq<Seq<char>>, fmt: rw_formatting)
    ensures
        never_runs(show_plan(names, fmt)),
    decreases names.len(),
{
    if names.len() > 0 {
        lemma_show_plan(names.drop_last(), fmt);
    }
}

proof fn lemma_poke_steps(regions: Seq<addr_mapping>, stack: bool)
    ensures
        never_runs(poke_steps(regions, stack)),
    decreases regions.len(),
{
    if regions.len() > 0 {
        lemma_poke_steps(regions.drop_last(), stack);
    }
}

/// The script of every command waits for the child after every run.
pub proof fn lemma_command_plan_waits(
    slots: Seq<Option<breakpoint>>,
    line: Seq<char>,
    dwarf_info: debug_info,
)
    ensures
        waits_after_running(command_plan(slots, line, dwarf_info)),
{
    let args = crate::text::split_args(line);
    assert(never_runs(breakpoint_plan(slots, args))) by {
        assert(never_runs(list_plan(slots)));
    }
    assert(never_runs(regs_plan(args))) by {
        if args.len() >= 2 {
            match crate::format::parse_format(args[1]) {
                Ok(fmt) => {
                    lemma_show_plan(args.skip(2), fmt);
                },
                Err(_) => {},
            }
        }
    }
    assert(never_runs(mem_plan(args)));
    assert(never_runs(restore_plan(args)));
    assert(never_runs(dwarf_plan(dwarf_info)));
}

/// The way over a breakpoint waits for the child after every run.
pub proof fn lemma_continue_plan_waits(slots: Seq<Option<breakpoint>>, rip: u64)
    ensures
        waits_after_running(continue_plan(slots, rip)),
{
}

/// A session that has just begun waits for the child after every run.
pub proof fn lemma_begun_waits(s: session)
    ensures
        waits(issue(begun(s)).0),
{
    reveal_with_fuel(issue, 2);
}

/// Handing out the next request keeps the script one that waits for the
/// child after every run, and where the step handed out lets the child
/// run, the wait comes next.
proof fn lemma_issue_waits(s: session)
    requires
        waits_after_running(s.script),
    ensures
        waits(issue(s).0),
    decreases s.script.len(),
{
    if s.script.len() > 0 {
        let rest = s.script.subrange(1, s.script.len() as int);
        assert forall|i: int| 0 <= i < rest.len() && runs(#[trigger] rest[i]) implies i + 1
            < rest.len() && rest[i + 1] is Wait by {
            assert(runs(s.script[i + 1]));
            assert(rest[i + 1] == s.script[i + 2]);
        }
        if request_of(s, s.script[0]) is None {
            lemma_issue_waits(session { script: rest, ..s });
        } else if runs(s.script[0]) {
            assert(rest[0] == s.script[1]);
        }
    }
}

/// Whatever the reply, a session that waits for the child after every run
/// goes on doing so.
pub proof fn lemma_turn_waits(s: session, reply: reply_view, dwarf_info: debug_info)
    requires
        waits(s),
    ensures
        waits(turn(s, reply, dwarf_info).0),
{
    reveal(turn);
    let after = react(s, reply, dwarf_info);
    assert(waits_after_running(after.script)) by {
        lemma_react_waits(s, reply, dwarf_info);
    }
    lemma_issue_waits(after);
}

proof fn lemma_react_waits(s: session, reply: reply_view, dwarf_info: debug_info)
    requires
        waits(s),
    ensures
        waits_after_running(react(s, reply, dwarf_info).script),
{
    let after = react(s, reply, dwarf_info);
    if after.script == s.script {
    } else {
        match (s.current, reply) {
            (op::Prompt, reply_view::Line(line)) => {
                lemma_command_plan_waits(s.table, line, dwarf_info);
                lemma_joined(command_plan(s.table, line, dwarf_info), s.script);
            },
            (op::Continue, reply_view::Regs(bank)) => {
                lemma_joined(continue_plan(s.table, bank.rip), s.script);
            },
            (op::DumpRegs, reply_view::Regs(bank)) => {
                assert(never_runs(dump_plan(bank)));
                lemma_joined(dump_plan(bank), s.script);
            },
            (op::CaptureMaps, reply_view::Maps(text)) => {
                let plan = capture_plan(crate::trace::parse_maps(text));
                assert(never_runs(plan));
                lemma_joined(plan, s.script);
            },
            (op::RestoreMaps(pc), reply_view::Maps(text)) => {
                let regions = crate::trace::parse_maps(text);
                lemma_poke_steps(regions, true);
                lemma_poke_steps(regions, false);
                assert(never_runs(poke_plan(regions, true)));
                assert(never_runs(poke_plan(regions, false)));
                lemma_joined(poke_plan(regions, true), poke_plan(regions, false));
                lemma_joined(
                    poke_plan(regions, true) + poke_plan(regions, false),
                    reentry_plan(pc),
                );
                lemma_joined(
                    poke_plan(regions, true) + poke_plan(regions, false) + reentry_plan(pc),
                    s.script,
                );
            },
            _ => {
                lemma_single_step_waits(s, reply, dwarf_info);
            },
        }
    }
}

/// A reply that puts at most one step before the script, or gives the
/// script up for one step, puts no step that lets the child run.
proof fn lemma_single_step_waits(s: session, reply: reply_view, dwarf_info: debug_info)
    requires
        waits(s),
        !(s.current is Prompt && reply is Line),
        !(s.current is Continue && reply is Regs),
        !(s.current is DumpRegs && reply is Regs),
        !(s.current is CaptureMaps && reply is Maps),
        !(s.current is RestoreMaps && reply is Maps),
    ensures
        waits_after_running(react(s, reply, dwarf_info).script),
{
    let after = react(s, reply, dwarf_info).script;
    if after != s.script {
        if after.len() == 1 {
            assert(!runs(after[0]));
        } else {
            let step = after[0];
            assert(after =~= seq![step] + s.script);
            assert(!runs(step));
            assert(never_runs(seq![step]));
            lemma_joined(seq![step], s.script);
        }
    }
}

/// After the child has been let run, the next request is to wait for it.
pub proof fn lemma_wait_follows_run(s: session, dwarf_info: debug_info)
    requires
        waits(s),
        runs(s.current),
    ensures
        turn(s, reply_view::Done, dwarf_info).1 == request_view::Wait,
{
    reveal(turn);
    assert(react(s, reply_view::Done, dwarf_info) == s);
}

} // verus!
