//! Software breakpoints: the patching of one byte of code with the trap
//! instruction, and the table that hands out stable indices for them.
use vstd::prelude::*;
use nix::errno::Errno;
use nix::unistd::Pid;

verus! {

/// The one-byte instruction that traps into the debugger.
pub const TRAP_BYTE: u8 = 0xcc;

/// The lowest byte of a word, which is the byte at the address the word was
/// read from.
pub open spec fn low_byte(word: u64) -> u8 {
    (word & 0xff) as u8
}

/// The word with its lowest byte replaced.
pub open spec fn with_low_byte(word: u64, byte: u8) -> u64 {
    (word & !0xffu64) | (byte as u64)
}

/// A breakpoint at one address of the child's code. `saved_data` is the byte
/// that stood at the address before the trap instruction was first written
/// there; it is `None` until the breakpoint has been armed once.
#[derive(Clone, Copy, Debug, PartialEq, Eq)]
pub struct breakpoint {
    pub saved_data: Option<u8>,
    pub addr: usize,
    pub enabled: bool,
    pub pid: Pid,
}

/// Why an operation on the table of breakpoints did nothing.
#[derive(Clone, Copy, Debug, PartialEq, Eq)]
pub enum table_error {
    /// A live breakpoint already stands at the address.
    DuplicateAddress,
    /// The index is out of range or its slot has been deleted.
    NotFound,
    /// The word at the breakpoint's address could not be read.
    Trace(Errno),
}

fn replace_low_byte(word: u64, byte: u8) -> (r: u64)
    ensures
        r == with_low_byte(word, byte),
{
    (word & !0xffu64) | (byte as u64)
}

fn lowest_byte(word: u64) -> (r: u8)
    ensures
        r == low_byte(word),
{
    assert(word & 0xff <= 0xff) by (bit_vector);
    (word & 0xff) as u8
}

impl breakpoint {
    /// The breakpoint after it has been armed over a word read at its
    /// address. One that is armed already keeps the byte it has saved: the
    /// byte that stands at its address now is the trap instruction.
    pub open spec fn armed_over(self, word: u64) -> breakpoint {
        if self.enabled {
            self
        } else {
            breakpoint { saved_data: Some(low_byte(word)), enabled: true, ..self }
        }
    }

    /// The breakpoint after it has been disarmed.
    pub open spec fn disarmed(self) -> breakpoint {
        breakpoint { enabled: false, ..self }
    }

    /// The word to write back when the breakpoint is disarmed over a word
    /// read at its address: the saved byte returns. A breakpoint that is
    /// not armed has patched nothing, and changes nothing.
    pub open spec fn restored_word(self, word: u64) -> u64 {
        match self.saved_data {
            Some(byte) => if self.enabled {
                with_low_byte(word, byte)
            } else {
                word
            },
            None => word,
        }
    }

    /// Whether the breakpoint holds what an armed breakpoint has to hold:
    /// one that is armed has saved a byte. Every breakpoint that `New`,
    /// `enable` and `disable` have made is so.
    pub open spec fn valid(self) -> bool {
        self.enabled ==> self.saved_data is Some
    }

    /// A disarmed breakpoint; nothing is asked of the child.
    pub fn New(proc: Pid, target_addr: usize) -> (bp: breakpoint)
        ensures
            bp == (breakpoint { saved_data: None, addr: target_addr, enabled: false, pid: proc }),
    {
        breakpoint { saved_data: None, addr: target_addr, enabled: false, pid: proc }
    }

    /// Arms the breakpoint. `read` is what reading the word at `addr` gave.
    /// Where that failed, the error is handed on and nothing changes.
    /// Otherwise the low byte of the word is saved, unless the breakpoint
    /// is armed already, and the result is the word to write back: the
    /// same word with the trap instruction as its low byte.
    pub fn enable(&mut self, read: Result<u64, Errno>) -> (r: Result<u64, Errno>)
        ensures
            match read {
                Ok(word) => {
                    &&& r == Ok::<u64, Errno>(with_low_byte(word, TRAP_BYTE))
                    &&& *final(self) == old(self).armed_over(word)
                },
                Err(e) => r == Err::<u64, Errno>(e) && *final(self) == *old(self),
            },
    {
        match read {
            Ok(word) => {
                if !self.enabled {
                    self.saved_data = Some(lowest_byte(word));
                    self.enabled = true;
                }
                Ok(replace_low_byte(word, TRAP_BYTE))
            },
            Err(e) => Err(e),
        }
    }

    /// Disarms the breakpoint. `read` is what reading the word at `addr`
    /// gave. Where that failed, the error is handed on and nothing changes.
    /// Otherwise the result is the word to write back: for a breakpoint
    /// that is armed, the word with the saved byte as its low byte; for
    /// one that is not, the word as it was read.
    pub fn disable(&mut self, read: Result<u64, Errno>) -> (r: Result<u64, Errno>)
        ensures
            match read {
                Ok(word) => {
                    &&& r == Ok::<u64, Errno>(old(self).restored_word(word))
                    &&& *final(self) == old(self).disarmed()
                },
                Err(e) => r == Err::<u64, Errno>(e) && *final(self) == *old(self),
            },
    {
        match read {
            Ok(word) => {
                let was_armed = self.enabled;
                self.enabled = false;
                match self.saved_data {
                    Some(byte) => if was_armed {
                        Ok(replace_low_byte(word, byte))
                    } else {
                        Ok(word)
                    },
                    None => Ok(word),
                }
            },
            Err(e) => Err(e),
        }
    }
}

/// The word written by arming has the trap instruction as its low byte and
/// the other bytes of the word that was read, and the byte that is saved
/// is the low byte of the word that was read. Disarming over the word that
/// was written writes back the word that stood there before arming.
pub proof fn lemma_arm_then_disarm(bp: breakpoint, word: u64)
    requires
        !bp.enabled,
    ensures
        low_byte(with_low_byte(word, TRAP_BYTE)) == TRAP_BYTE,
        with_low_byte(word, TRAP_BYTE) & 0xff == 0xcc,
        with_low_byte(word, TRAP_BYTE) & !0xffu64 == word & !0xffu64,
        bp.armed_over(word).saved_data == Some(low_byte(word)),
        bp.armed_over(word).restored_word(with_low_byte(word, TRAP_BYTE)) == word,
        low_byte(bp.armed_over(word).restored_word(with_low_byte(word, TRAP_BYTE))) == low_byte(
            word,
        ),
{
    lemma_low_byte_replaced(word, TRAP_BYTE);
    lemma_low_byte_replaced(with_low_byte(word, TRAP_BYTE), low_byte(word));
    assert(((((word & !0xffu64) | 0xccu64) & !0xffu64) | ((word & 0xff) as u8 as u64)) == word)
        by (bit_vector);
}

/// Arming makes a breakpoint that has saved a byte, and the word it writes
/// has the trap instruction as its low byte. Disarming afterwards, over
/// whatever word is read then, writes that word back with the saved byte
/// as its low byte.
pub proof fn lemma_disarm_restores_saved_byte(bp: breakpoint, word: u64, later: u64)
    requires
        bp.valid(),
    ensures
        bp.armed_over(word).valid(),
        bp.armed_over(word).enabled,
        bp.disarmed().valid(),
        with_low_byte(word, TRAP_BYTE) & 0xff == 0xcc,
        bp.armed_over(word).restored_word(later) & 0xff == bp.armed_over(word).saved_data->0,
        bp.armed_over(word).restored_word(later) & !0xffu64 == later & !0xffu64,
{
    lemma_low_byte_replaced(word, TRAP_BYTE);
    lemma_low_byte_replaced(later, bp.armed_over(word).saved_data->0);
}

/// Replacing the low byte of a word sets that byte and keeps the others.
pub proof fn lemma_low_byte_replaced(word: u64, byte: u8)
    ensures
        low_byte(with_low_byte(word, byte)) == byte,
        with_low_byte(word, byte) & 0xff == byte,
        with_low_byte(word, byte) & !0xffu64 == word & !0xffu64,
{
    assert((((word & !0xffu64) | (byte as u64)) & 0xff) as u8 == byte) by (bit_vector);
    assert(((word & !0xffu64) | (byte as u64)) & 0xff == byte) by (bit_vector);
    assert(((word & !0xffu64) | (byte as u64)) & !0xffu64 == word & !0xffu64) by (bit_vector);
}

/// Whether a slot of the table holds a breakpoint: the index is in range
/// and the slot has not been deleted.
pub open spec fn live_at(slots: Seq<Option<breakpoint>>, idx: int) -> bool {
    0 <= idx < slots.len() && slots[idx] is Some
}

/// Whether a live breakpoint stands at an address.
pub open spec fn holds_addr(slots: Seq<Option<breakpoint>>, addr: usize) -> bool {
    exists|i: int| live_at(slots, i) && (#[trigger] slots[i])->0.addr == addr
}

/// The index of the live breakpoint at an address.
pub open spec fn index_of_addr(slots: Seq<Option<breakpoint>>, addr: usize) -> int {
    choose|i: int| live_at(slots, i) && (#[trigger] slots[i])->0.addr == addr
}

/// No two live breakpoints stand at one address.
pub open spec fn unique_addresses(slots: Seq<Option<breakpoint>>) -> bool {
    forall|i: int, j: int|
        live_at(slots, i) && live_at(slots, j) && (#[trigger] slots[i])->0.addr == (
        #[trigger] slots[j])->0.addr ==> i == j
}

/// The table after an insertion: a breakpoint at a free address takes the
/// next slot; one at an address that is taken changes nothing.
pub open spec fn after_insert(slots: Seq<Option<breakpoint>>, bp: breakpoint) -> Seq<
    Option<breakpoint>,
> {
    if holds_addr(slots, bp.addr) {
        slots
    } else {
        slots.push(Some(bp))
    }
}

/// The table after a live slot has been handed a new content, or emptied.
pub open spec fn after_update(
    slots: Seq<Option<breakpoint>>,
    idx: int,
    content: Option<breakpoint>,
) -> Seq<Option<breakpoint>> {
    if live_at(slots, idx) {
        slots.update(idx, content)
    } else {
        slots
    }
}

/// The live breakpoints with their indices, in the order of the indices.
pub open spec fn live_rows(slots: Seq<Option<breakpoint>>) -> Seq<(usize, breakpoint)>
    decreases slots.len(),
{
    if slots.len() == 0 {
        Seq::empty()
    } else {
        let front = live_rows(slots.drop_last());
        match slots.last() {
            Some(bp) => front.push(((slots.len() - 1) as usize, bp)),
            None => front,
        }
    }
}

/// The table of breakpoints. A slot is never handed out twice: deleting a
/// breakpoint empties its slot and leaves the other indices as they were.
/// `addr_list` runs beside `bp_list` and holds, for each live slot, the
/// address of its breakpoint.
pub struct bp_storage {
    bp_list: Vec<Option<breakpoint>>,
    addr_list: Vec<usize>,
}

impl View for bp_storage {
    type V = Seq<Option<breakpoint>>;

    closed spec fn view(&self) -> Seq<Option<breakpoint>> {
        self.bp_list@
    }
}

impl bp_storage {
    /// The invariant of the table: the two lists run side by side, and no
    /// address is live twice.
    pub closed spec fn wf(&self) -> bool {
        &&& self.addr_list@.len() == self.bp_list@.len()
        &&& forall|i: int|
            live_at(self.bp_list@, i) ==> self.addr_list@[i] == (#[trigger] self.bp_list@[i])->0.addr
        &&& unique_addresses(self.bp_list@)
    }

    /// A well-formed table has no address live twice.
    pub proof fn lemma_wf_unique(&self)
        requires
            self.wf(),
        ensures
            unique_addresses(self@),
    {
    }

    pub fn New() -> (table: bp_storage)
        ensures
            table.wf(),
            table@ == Seq::<Option<breakpoint>>::empty(),
    {
        bp_storage { bp_list: Vec::new(), addr_list: Vec::new() }
    }

    /// The number of slots handed out so far, deleted ones included.
    pub fn len(&self) -> (n: usize)
        ensures
            n == self@.len(),
    {
        self.bp_list.len()
    }

    /// The breakpoint in a slot; `None` where the index is out of range or
    /// the slot has been deleted.
    pub fn get(&self, idx: usize) -> (r: Option<breakpoint>)
        ensures
            r == (if live_at(self@, idx as int) {
                self@[idx as int]
            } else {
                None
            }),
    {
        if idx < self.bp_list.len() {
            self.bp_list[idx]
        } else {
            None
        }
    }

    /// The index of the live breakpoint at an address.
    pub fn find_by_addr(&self, addr: usize) -> (r: Option<usize>)
        requires
            self.wf(),
        ensures
            r is Some <==> holds_addr(self@, addr),
            r is Some ==> live_at(self@, r->0 as int) && self@[r->0 as int]->0.addr == addr,
            r is Some ==> r->0 == index_of_addr(self@, addr),
    {
        let mut i: usize = 0;
        while i < self.bp_list.len()
            invariant
                self.wf(),
                i <= self.bp_list@.len(),
                forall|j: int|
                    0 <= j < i && live_at(self.bp_list@, j) ==> (#[trigger] self.bp_list@[j])->0.addr
                        != addr,
            decreases self.bp_list@.len() - i,
        {
            if self.bp_list[i].is_some() && self.addr_list[i] == addr {
                return Some(i);
            }
            i = i + 1;
        }
        None
    }

    /// Whether a live breakpoint stands at an address.
    pub fn contains(&self, addr: usize) -> (r: bool)
        requires
            self.wf(),
        ensures
            r == holds_addr(self@, addr),
    {
        self.find_by_addr(addr).is_some()
    }

    /// Adds a breakpoint in the next slot and returns its index, unless a
    /// live breakpoint already stands at its address.
    pub fn insert(&mut self, bp: breakpoint) -> (r: Result<usize, table_error>)
        requires
            old(self).wf(),
        ensures
            final(self).wf(),
            final(self)@ == after_insert(old(self)@, bp),
            holds_addr(old(self)@, bp.addr) ==> r == Err::<usize, table_error>(
                table_error::DuplicateAddress,
            ),
            !holds_addr(old(self)@, bp.addr) ==> r == Ok::<usize, table_error>(
                old(self)@.len() as usize,
            ),
    {
        if self.contains(bp.addr) {
            return Err(table_error::DuplicateAddress);
        }
        let idx: usize = self.bp_list.len();
        self.bp_list.push(Some(bp));
        self.addr_list.push(bp.addr);
        proof {
            let before = old(self).bp_list@;
            let after = self.bp_list@;
            assert forall|i: int, j: int|
                live_at(after, i) && live_at(after, j) && (#[trigger] after[i])->0.addr == (
                #[trigger] after[j])->0.addr implies i == j by {
                if i < before.len() {
                    assert(live_at(before, i) && before[i]->0.addr == after[i]->0.addr);
                }
                if j < before.len() {
                    assert(live_at(before, j) && before[j]->0.addr == after[j]->0.addr);
                }
            }
        }
        Ok(idx)
    }

    /// Deletes the breakpoint in a slot. `read` is what reading the word at
    /// its address gave. The breakpoint is disarmed and its slot emptied;
    /// the result is the word to write back at its address.
    pub fn delete(&mut self, idx: usize, read: Result<u64, Errno>) -> (r: Result<u64, table_error>)
        requires
            old(self).wf(),
        ensures
            final(self).wf(),
            !live_at(old(self)@, idx as int) ==> r == Err::<u64, table_error>(
                table_error::NotFound,
            ) && final(self)@ == old(self)@,
            live_at(old(self)@, idx as int) ==> match read {
                Ok(word) => {
                    &&& r == Ok::<u64, table_error>(old(self)@[idx as int]->0.restored_word(word))
                    &&& final(self)@ == after_update(old(self)@, idx as int, None)
                },
                Err(e) => r == Err::<u64, table_error>(table_error::Trace(e)) && final(self)@
                    == old(self)@,
            },
    {
        let mut bp = match self.get(idx) {
            Some(bp) => bp,
            None => {
                return Err(table_error::NotFound);
            },
        };
        match bp.disable(read) {
            Ok(word) => {
                self.bp_list.set(idx, None);
                proof {
                    self.lemma_update_keeps_wf(old(self), idx as int, None);
                }
                Ok(word)
            },
            Err(e) => Err(table_error::Trace(e)),
        }
    }

    /// Arms the breakpoint in a slot. `read` is what reading the word at its
    /// address gave; the result is the word to write back there.
    pub fn enable(&mut self, idx: usize, read: Result<u64, Errno>) -> (r: Result<u64, table_error>)
        requires
            old(self).wf(),
        ensures
            final(self).wf(),
            !live_at(old(self)@, idx as int) ==> r == Err::<u64, table_error>(
                table_error::NotFound,
            ) && final(self)@ == old(self)@,
            live_at(old(self)@, idx as int) ==> match read {
                Ok(word) => {
                    &&& r == Ok::<u64, table_error>(with_low_byte(word, TRAP_BYTE))
                    &&& final(self)@ == after_update(
                        old(self)@,
                        idx as int,
                        Some(old(self)@[idx as int]->0.armed_over(word)),
                    )
                },
                Err(e) => r == Err::<u64, table_error>(table_error::Trace(e)) && final(self)@
                    == old(self)@,
            },
    {
        let mut bp = match self.get(idx) {
            Some(bp) => bp,
            None => {
                return Err(table_error::NotFound);
            },
        };
        match bp.enable(read) {
            Ok(word) => {
                self.bp_list.set(idx, Some(bp));
                proof {
                    self.lemma_update_keeps_wf(old(self), idx as int, Some(bp));
                }
                Ok(word)
            },
            Err(e) => Err(table_error::Trace(e)),
        }
    }

    /// Disarms the breakpoint in a slot. `read` is what reading the word at
    /// its address gave; the result is the word to write back there.
    pub fn disable(&mut self, idx: usize, read: Result<u64, Errno>) -> (r: Result<
        u64,
        table_error,
    >)
        requires
            old(self).wf(),
        ensures
            final(self).wf(),
            !live_at(old(self)@, idx as int) ==> r == Err::<u64, table_error>(
                table_error::NotFound,
            ) && final(self)@ == old(self)@,
            live_at(old(self)@, idx as int) ==> match read {
                Ok(word) => {
                    &&& r == Ok::<u64, table_error>(old(self)@[idx as int]->0.restored_word(word))
                    &&& final(self)@ == after_update(
                        old(self)@,
                        idx as int,
                        Some(old(self)@[idx as int]->0.disarmed()),
                    )
                },
                Err(e) => r == Err::<u64, table_error>(table_error::Trace(e)) && final(self)@
                    == old(self)@,
            },
    {
        let mut bp = match self.get(idx) {
            Some(bp) => bp,
            None => {
                return Err(table_error::NotFound);
            },
        };
        match bp.disable(read) {
            Ok(word) => {
                self.bp_list.set(idx, Some(bp));
                proof {
                    self.lemma_update_keeps_wf(old(self), idx as int, Some(bp));
                }
                Ok(word)
            },
            Err(e) => Err(table_error::Trace(e)),
        }
    }

    /// The live breakpoints with their indices, in the order of the indices.
    pub fn iter_live(&self) -> (rows: Vec<(usize, breakpoint)>)
        ensures
            rows@ == live_rows(self@),
    {
        let mut rows: Vec<(usize, breakpoint)> = Vec::new();
        let mut i: usize = 0;
        while i < self.bp_list.len()
            invariant
                i <= self.bp_list@.len(),
                rows@ == live_rows(self.bp_list@.take(i as int)),
            decreases self.bp_list@.len() - i,
        {
            proof {
                let next = self.bp_list@.take(i + 1);
                assert(next.drop_last() == self.bp_list@.take(i as int));
                assert(next.last() == self.bp_list@[i as int]);
            }
            match self.bp_list[i] {
                Some(bp) => {
                    rows.push((i, bp));
                },
                None => {},
            }
            i = i + 1;
        }
        assert(self.bp_list@.take(self.bp_list@.len() as int) == self.bp_list@);
        rows
    }

    /// Emptying a live slot, or changing a breakpoint without moving it,
    /// keeps the invariant.
    proof fn lemma_update_keeps_wf(&self, before: &bp_storage, idx: int, content: Option<breakpoint>)
        requires
            before.wf(),
            live_at(before.bp_list@, idx),
            content is Some ==> content->0.addr == before.bp_list@[idx]->0.addr,
            self.bp_list@ == before.bp_list@.update(idx, content),
            self.addr_list@ == before.addr_list@,
        ensures
            self.wf(),
            self@ == after_update(before@, idx, content),
    {
        let old_slots = before.bp_list@;
        let new_slots = self.bp_list@;
        assert forall|i: int, j: int|
            live_at(new_slots, i) && live_at(new_slots, j) && (#[trigger] new_slots[i])->0.addr == (
            #[trigger] new_slots[j])->0.addr implies i == j by {
            assert(live_at(old_slots, i) && old_slots[i]->0.addr == new_slots[i]->0.addr);
            assert(live_at(old_slots, j) && old_slots[j]->0.addr == new_slots[j]->0.addr);
        }
        assert forall|i: int| live_at(new_slots, i) implies self.addr_list@[i] == (
        #[trigger] new_slots[i])->0.addr by {
            assert(live_at(old_slots, i) && old_slots[i]->0.addr == new_slots[i]->0.addr);
        }
    }
}

/// One operation on the table, as the laws below speak of it.
pub enum table_op {
    /// Insert a breakpoint.
    Insert(breakpoint),
    /// Delete the breakpoint in a slot.
    Delete(int),
    /// Arm the breakpoint in a slot over the word read at its address.
    Enable(int, u64),
    /// Disarm the breakpoint in a slot.
    Disable(int),
}

/// The table after one operation.
pub open spec fn after_op(slots: Seq<Option<breakpoint>>, op: table_op) -> Seq<Option<breakpoint>> {
    match op {
        table_op::Insert(bp) => after_insert(slots, bp),
        table_op::Delete(idx) => after_update(slots, idx, None),
        table_op::Enable(idx, word) => after_update(
            slots,
            idx,
            Some(slots[idx]->0.armed_over(word)),
        ),
        table_op::Disable(idx) => after_update(slots, idx, Some(slots[idx]->0.disarmed())),
    }
}

/// The table after a run of operations, the first of them applied first.
pub open spec fn after_ops(slots: Seq<Option<breakpoint>>, ops: Seq<table_op>) -> Seq<
    Option<breakpoint>,
>
    decreases ops.len(),
{
    if ops.len() == 0 {
        slots
    } else {
        after_op(after_ops(slots, ops.drop_last()), ops.last())
    }
}

/// The index that an operation hands out: that of the new slot, for an
/// insertion at a free address.
pub open spec fn index_given(slots: Seq<Option<breakpoint>>, op: table_op) -> Option<int> {
    match op {
        table_op::Insert(bp) => if holds_addr(slots, bp.addr) {
            None
        } else {
            Some(slots.len() as int)
        },
        _ => None,
    }
}

/// One operation keeps the addresses of the live breakpoints distinct and
/// takes no slot away.
pub proof fn lemma_op_keeps_unique(slots: Seq<Option<breakpoint>>, op: table_op)
    requires
        unique_addresses(slots),
    ensures
        unique_addresses(after_op(slots, op)),
        after_op(slots, op).len() >= slots.len(),
        index_given(slots, op) is Some ==> after_op(slots, op).len() == slots.len() + 1,
{
    let after = after_op(slots, op);
    assert forall|i: int, j: int|
        live_at(after, i) && live_at(after, j) && (#[trigger] after[i])->0.addr == (
        #[trigger] after[j])->0.addr implies i == j by {
        if i < slots.len() {
            assert(live_at(slots, i) && slots[i]->0.addr == after[i]->0.addr);
        }
        if j < slots.len() {
            assert(live_at(slots, j) && slots[j]->0.addr == after[j]->0.addr);
        }
    }
}

/// Whatever operations are applied to a table in which no address is live
/// twice, no address is live twice afterwards.
pub proof fn lemma_addresses_stay_unique(slots: Seq<Option<breakpoint>>, ops: Seq<table_op>)
    requires
        unique_addresses(slots),
    ensures
        unique_addresses(after_ops(slots, ops)),
        after_ops(slots, ops).len() >= slots.len(),
    decreases ops.len(),
{
    if ops.len() > 0 {
        lemma_addresses_stay_unique(slots, ops.drop_last());
        lemma_op_keeps_unique(after_ops(slots, ops.drop_last()), ops.last());
    }
}

/// The number of slots never shrinks along a run of operations.
pub proof fn lemma_slots_never_shrink(
    slots: Seq<Option<breakpoint>>,
    ops: Seq<table_op>,
    j: int,
    k: int,
)
    requires
        unique_addresses(slots),
        0 <= j <= k <= ops.len(),
    ensures
        after_ops(slots, ops.take(j)).len() <= after_ops(slots, ops.take(k)).len(),
    decreases k - j,
{
    if j < k {
        lemma_slots_never_shrink(slots, ops, j, k - 1);
        assert(ops.take(k).drop_last() == ops.take(k - 1));
        lemma_addresses_stay_unique(slots, ops.take(k - 1));
        lemma_op_keeps_unique(after_ops(slots, ops.take(k - 1)), ops[k - 1]);
    }
}

/// An index handed out by an insertion is never handed out again: of two
/// insertions in a run of operations, whatever stands between them, the
/// later one gets the greater index.
pub proof fn lemma_indices_never_reused(
    slots: Seq<Option<breakpoint>>,
    ops: Seq<table_op>,
    j: int,
    k: int,
)
    requires
        unique_addresses(slots),
        0 <= j < k < ops.len(),
        index_given(after_ops(slots, ops.take(j)), ops[j]) is Some,
        index_given(after_ops(slots, ops.take(k)), ops[k]) is Some,
    ensures
        index_given(after_ops(slots, ops.take(j)), ops[j])->0 < index_given(
            after_ops(slots, ops.take(k)),
            ops[k],
        )->0,
{
    lemma_addresses_stay_unique(slots, ops.take(j));
    lemma_op_keeps_unique(after_ops(slots, ops.take(j)), ops[j]);
    assert(ops.take(j + 1).drop_last() == ops.take(j));
    lemma_slots_never_shrink(slots, ops, j + 1, k);
}

} // verus!
