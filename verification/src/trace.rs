//! Snapshots of the child: what one holds, and the regions of the child's
//! address space that one covers.
use vstd::prelude::*;
use nix::unistd::Pid;
use crate::debugger::{op, Debugger};
use crate::misc::{number_in, parse_number, regs_to_dict};
use crate::registers::{Register, RegisterBank, RegisterDict};
use crate::session::{restore_begun, snapshot_begun};
use crate::text::{contains_text, find_char, first_index_of, has_substring, to_chars};

verus! {

/// The identifier of a process as text: what `to_string` gives of a
/// `nix::unistd::Pid`, through its `Display`, which writes the number of
/// the process.
pub uninterp spec fn pid_digits(pid: Pid) -> Seq<char>;

/// `nix::unistd::Pid` as text, through its `Display`, which writes the
/// number of the process. The text depends on the identifier alone; which
/// characters it holds is not claimed here.
#[verifier::external_body]
fn pid_text(pid: Pid) -> (r: String)
    ensures
        r@ == pid_digits(pid),
{
    pid.to_string()
}

/// The file that snapshots are written to.
pub open spec fn snapshot_file() -> Seq<char> {
    "trace"@
}

/// The file that shows the address-space map of the process whose
/// identifier is written `pid_text`.
pub open spec fn maps_file_of(pid_text: Seq<char>) -> Seq<char> {
    "/proc/"@ + pid_text + "/maps"@
}

/// The path of the file that snapshots are written to.
pub fn snapshot_path() -> (path: Vec<char>)
    ensures
        path@ == snapshot_file(),
{
    to_chars("trace")
}

/// The path of the file that shows the address-space map of the process
/// whose identifier is written `pid_text`.
pub fn proc_maps_path(pid_text: &str) -> (path: Vec<char>)
    ensures
        path@ == maps_file_of(pid_text@),
{
    let mut path = to_chars("/proc/");
    let mut middle = to_chars(pid_text);
    let mut end = to_chars("/maps");
    path.append(&mut middle);
    path.append(&mut end);
    path
}

/// The path of the file that shows the address-space map of a process.
pub fn maps_path(pid: Pid) -> (path: Vec<char>)
    ensures
        path@ == maps_file_of(pid_digits(pid)),
{
    let text = pid_text(pid);
    proc_maps_path(text.as_str())
}

/// The size in bytes of a word of the child's memory.
pub const WORD_BYTES: usize = 8;

/// What a snapshot holds: the registers by name, and the words of the stack
/// and of the heap in ascending order of address.
#[derive(Debug, PartialEq, Eq)]
pub struct Trace {
    pub regs: RegisterDict,
    pub stack: Vec<u64>,
    pub heap: Vec<u64>,
}

/// A snapshot, with sequences in place of its vectors.
pub struct trace_view {
    pub regs: Map<Register, u64>,
    pub stack: Seq<u64>,
    pub heap: Seq<u64>,
}

impl View for Trace {
    type V = trace_view;

    open spec fn view(&self) -> trace_view {
        trace_view { regs: self.regs@, stack: self.stack@, heap: self.heap@ }
    }
}

/// A region of the child's address space, from its first address up to, not
/// including, its last.
#[derive(Clone, Copy, Debug, PartialEq, Eq, Structural)]
pub enum addr_mapping {
    Stack(usize, usize),
    Heap(usize, usize),
}

fn copy_words(words: &Vec<u64>) -> (r: Vec<u64>)
    ensures
        r@ == words@,
{
    let mut r: Vec<u64> = Vec::new();
    let mut i: usize = 0;
    while i < words.len()
        invariant
            i <= words.len(),
            r@ == words@.take(i as int),
        decreases words.len() - i,
    {
        r.push(words[i]);
        proof {
            assert(r@ =~= words@.take(i + 1));
        }
        i = i + 1;
    }
    assert(words@.take(words.len() as int) == words@);
    r
}

impl Trace {
    /// The snapshot that has captured nothing.
    pub fn New() -> (t: Trace)
        ensures
            t.regs@ == Map::<Register, u64>::empty(),
            t.stack@ == Seq::<u64>::empty(),
            t.heap@ == Seq::<u64>::empty(),
    {
        Trace { regs: RegisterDict::New(), stack: Vec::new(), heap: Vec::new() }
    }

    pub fn stack_append(&mut self, val: u64)
        ensures
            final(self).stack@ == old(self).stack@.push(val),
            final(self).heap == old(self).heap,
            final(self).regs == old(self).regs,
    {
        self.stack.push(val);
    }

    pub fn get_stack(&self) -> (words: &Vec<u64>)
        ensures
            words == self.stack,
    {
        &self.stack
    }

    pub fn get_heap(&self) -> (words: &Vec<u64>)
        ensures
            words == self.heap,
    {
        &self.heap
    }

    pub fn heap_append(&mut self, val: u64)
        ensures
            final(self).heap@ == old(self).heap@.push(val),
            final(self).stack == old(self).stack,
            final(self).regs == old(self).regs,
    {
        self.heap.push(val);
    }

    pub fn set_trace_regs(&mut self, regs: RegisterDict)
        ensures
            final(self).regs == regs,
            final(self).stack == old(self).stack,
            final(self).heap == old(self).heap,
    {
        self.regs = regs;
    }

    pub fn get_trace_regs(&self) -> (regs: &RegisterDict)
        ensures
            regs == self.regs,
    {
        &self.regs
    }

    /// Begins a snapshot. `regs` is what reading the registers of the
    /// child gave. The snapshot of the debugger is started anew with them,
    /// and the debugger goes on to capture the stack and the heap.
    pub fn trace_init(dbg: &mut Debugger, regs: RegisterBank)
        requires
            old(dbg).wf(),
        ensures
            final(dbg).wf(),
            final(dbg)@ == snapshot_begun(old(dbg)@, regs),
    {
        let mut trace_var = Trace::New();
        trace_var.set_trace_regs(regs_to_dict(regs));
        dbg.trace_file = trace_var;
        dbg.trace_enabled = false;
        dbg.script.push_front(op::CaptureMaps);
    }

    /// Begins to restore a snapshot that has been read from its file. It
    /// becomes the snapshot of the debugger, and the debugger goes on to
    /// write its words back, to bring the child to the re-entry program
    /// counter `pc`, and to put its registers back.
    pub fn restore(trace: Trace, dbg: &mut Debugger, pc: usize)
        requires
            old(dbg).wf(),
        ensures
            final(dbg).wf(),
            final(dbg)@ == restore_begun(old(dbg)@, trace@, pc),
    {
        dbg.trace_file = trace;
        dbg.trace_enabled = true;
        dbg.script.push_front(op::RestoreMaps(pc));
    }

    /// A second snapshot that holds what this one holds.
    pub fn copy(&self) -> (t: Trace)
        ensures
            t.regs == self.regs,
            t.stack@ == self.stack@,
            t.heap@ == self.heap@,
    {
        Trace { regs: self.regs, stack: copy_words(&self.stack), heap: copy_words(&self.heap) }
    }
}

impl addr_mapping {
    pub open spec fn spec_start(self) -> usize {
        match self {
            addr_mapping::Stack(start, _) => start,
            addr_mapping::Heap(start, _) => start,
        }
    }

    pub open spec fn spec_end(self) -> usize {
        match self {
            addr_mapping::Stack(_, end) => end,
            addr_mapping::Heap(_, end) => end,
        }
    }

    /// The number of whole words in the region; zero where the region ends
    /// before it starts.
    pub open spec fn spec_words(self) -> int {
        if self.spec_end() > self.spec_start() {
            (self.spec_end() - self.spec_start()) / (WORD_BYTES as int)
        } else {
            0
        }
    }

    pub fn start(&self) -> (r: usize)
        ensures
            r == self.spec_start(),
    {
        match self {
            addr_mapping::Stack(start, _) => *start,
            addr_mapping::Heap(start, _) => *start,
        }
    }

    pub fn end(&self) -> (r: usize)
        ensures
            r == self.spec_end(),
    {
        match self {
            addr_mapping::Stack(_, end) => *end,
            addr_mapping::Heap(_, end) => *end,
        }
    }

    pub fn is_stack(&self) -> (r: bool)
        ensures
            r == (self is Stack),
    {
        match self {
            addr_mapping::Stack(_, _) => true,
            addr_mapping::Heap(_, _) => false,
        }
    }

    pub fn words(&self) -> (r: usize)
        ensures
            r == self.spec_words(),
    {
        let start: usize = self.start();
        let end: usize = self.end();
        if end > start {
            (end - start) / WORD_BYTES
        } else {
            0
        }
    }
}

/// The two addresses of `START-END`, both hexadecimal, where the first is
/// below the second.
pub open spec fn parse_range(token: Seq<char>) -> Option<(usize, usize)> {
    let dash = first_index_of(token, '-');
    if 0 <= dash < token.len() {
        match (parse_number(token.take(dash), 16), parse_number(token.skip(dash + 1), 16)) {
            (Some(start), Some(end)) => if start < end {
                Some((start, end))
            } else {
                None
            },
            _ => None,
        }
    } else {
        None
    }
}

/// The region that a line of the address-space map describes. A line that
/// holds `stack` is a stack region, one that holds `heap` and not `stack`
/// is a heap region, and the range is read from what stands before the
/// first blank. Any other line, and a line whose range cannot be read or
/// is empty, describes none.
pub open spec fn parse_map_line(line: Seq<char>) -> Option<addr_mapping> {
    let blank = first_index_of(line, ' ');
    let range = if 0 <= blank <= line.len() {
        parse_range(line.take(blank))
    } else {
        None
    };
    if has_substring(line, "stack"@) {
        match range {
            Some((start, end)) => Some(addr_mapping::Stack(start, end)),
            None => None,
        }
    } else if has_substring(line, "heap"@) {
        match range {
            Some((start, end)) => Some(addr_mapping::Heap(start, end)),
            None => None,
        }
    } else {
        None
    }
}

/// The stack and heap regions of an address-space map, in the order of its lines.
pub open spec fn parse_maps(text: Seq<char>) -> Seq<addr_mapping>
    decreases text.len(),
{
    if text.len() == 0 {
        Seq::empty()
    } else {
        let cut = first_index_of(text, '\n');
        let rest = if 0 <= cut < text.len() {
            parse_maps(text.skip(cut + 1))
        } else {
            Seq::empty()
        };
        let line = if 0 <= cut <= text.len() {
            parse_map_line(text.take(cut))
        } else {
            None
        };
        match line {
            Some(region) => seq![region] + rest,
            None => rest,
        }
    }
}

fn map_range(text: &Vec<char>, begin: usize, end: usize) -> (r: Option<(usize, usize)>)
    requires
        begin <= end <= text.len(),
    ensures
        r == parse_range(text@.subrange(begin as int, end as int)),
{
    let ghost token = text@.subrange(begin as int, end as int);
    let dash: usize = find_char(text, begin, end, '-');
    if dash == end {
        return None;
    }
    proof {
        assert(token.take(dash - begin) =~= text@.subrange(begin as int, dash as int));
        assert(token.skip(dash - begin + 1) =~= text@.subrange(dash + 1, end as int));
    }
    let first = number_in(text, begin, dash, 16);
    let second = number_in(text, dash + 1, end, 16);
    match (first, second) {
        (Some(a), Some(b)) => if a < b {
            Some((a, b))
        } else {
            None
        },
        _ => None,
    }
}

fn map_line(
    text: &Vec<char>,
    begin: usize,
    end: usize,
    stack: &Vec<char>,
    heap: &Vec<char>,
) -> (r: Option<addr_mapping>)
    requires
        begin <= end <= text.len(),
        stack@ == "stack"@,
        heap@ == "heap"@,
    ensures
        r == parse_map_line(text@.subrange(begin as int, end as int)),
{
    let ghost line = text@.subrange(begin as int, end as int);
    let is_stack = contains_text(text, begin, end, stack);
    let is_heap = contains_text(text, begin, end, heap);
    if !is_stack && !is_heap {
        return None;
    }
    let blank: usize = find_char(text, begin, end, ' ');
    proof {
        assert(line.take(blank - begin) =~= text@.subrange(begin as int, blank as int));
    }
    match map_range(text, begin, blank) {
        Some((a, b)) => if is_stack {
            Some(addr_mapping::Stack(a, b))
        } else {
            Some(addr_mapping::Heap(a, b))
        },
        None => None,
    }
}

/// Every region of an address-space map ends after it starts.
pub proof fn lemma_regions_not_empty(text: Seq<char>, i: int)
    requires
        0 <= i < parse_maps(text).len(),
    ensures
        parse_maps(text)[i].spec_start() < parse_maps(text)[i].spec_end(),
    decreases text.len(),
{
    if text.len() > 0 {
        let cut = first_index_of(text, '\n');
        let line = if 0 <= cut <= text.len() {
            parse_map_line(text.take(cut))
        } else {
            None
        };
        let skip = if line is Some {
            1int
        } else {
            0int
        };
        if i >= skip {
            lemma_regions_not_empty(text.skip(cut + 1), i - skip);
        }
    }
}

/// Reads the address-space map of the child and returns its stack and heap
/// regions in the order of the lines.
pub fn get_heap_and_stack(maps: &str) -> (regions: Vec<addr_mapping>)
    ensures
        regions@ == parse_maps(maps@),
        forall|i: int|
            0 <= i < regions@.len() ==> (#[trigger] regions@[i]).spec_start()
                < regions@[i].spec_end(),
{
    let text = to_chars(maps);
    let stack = to_chars("stack");
    let heap = to_chars("heap");
    let mut regions: Vec<addr_mapping> = Vec::new();
    let mut pos: usize = 0;
    let mut done: bool = text.len() == 0;
    proof {
        assert(text@.skip(0) == text@);
        assert(regions@ + parse_maps(text@) =~= parse_maps(text@));
    }
    while !done
        invariant
            pos <= text.len(),
            !done ==> pos < text.len(),
            stack@ == "stack"@,
            heap@ == "heap"@,
            regions@ + (if done {
                Seq::<addr_mapping>::empty()
            } else {
                parse_maps(text@.skip(pos as int))
            }) == parse_maps(text@),
        decreases text.len() - pos + (if done { 0int } else { 1int }),
    {
        let ghost rest = text@.skip(pos as int);
        let ghost before = regions@;
        let cut: usize = find_char(&text, pos, text.len(), '\n');
        proof {
            assert(text@.subrange(pos as int, text.len() as int) == rest);
            assert(rest.take(cut - pos) =~= text@.subrange(pos as int, cut as int));
            if cut < text.len() {
                assert(rest.skip(cut - pos + 1) =~= text@.skip(cut + 1));
            }
        }
        match map_line(&text, pos, cut, &stack, &heap) {
            Some(region) => {
                regions.push(region);
                proof {
                    assert(regions@ =~= before + seq![region]);
                }
            },
            None => {},
        }
        if cut < text.len() && cut + 1 < text.len() {
            pos = cut + 1;
        } else {
            proof {
                if cut < text.len() {
                    assert(text@.skip(cut + 1).len() == 0);
                    assert(parse_maps(rest.skip(cut - pos + 1)) == Seq::<addr_mapping>::empty());
                }
            }
            done = true;
        }
        proof {
            let tail = if done {
                Seq::<addr_mapping>::empty()
            } else {
                parse_maps(text@.skip(pos as int))
            };
            assert(regions@ + tail =~= before + parse_maps(rest));
        }
    }
    proof {
        assert(regions@ + Seq::<addr_mapping>::empty() =~= regions@);
        assert forall|i: int| 0 <= i < regions@.len() implies (#[trigger] regions@[i]).spec_start()
            < regions@[i].spec_end() by {
            lemma_regions_not_empty(maps@, i);
        }
    }
    regions
}

/// The sum of two counts, or the greatest count where the sum is greater.
pub open spec fn capped_sum(a: usize, b: int) -> usize {
    if a + b <= usize::MAX {
        (a + b) as usize
    } else {
        usize::MAX
    }
}

/// The number of words in the regions of a kind (`true` for the stack) in a
/// list of regions.
pub open spec fn words_in(regions: Seq<addr_mapping>, stack: bool) -> usize
    decreases regions.len(),
{
    if regions.len() == 0 {
        0
    } else if (regions.last() is Stack) == stack {
        capped_sum(words_in(regions.drop_last(), stack), regions.last().spec_words())
    } else {
        words_in(regions.drop_last(), stack)
    }
}

/// Whether a list of regions holds a region of a kind.
pub open spec fn has_kind(regions: Seq<addr_mapping>, stack: bool) -> bool {
    exists|i: int| 0 <= i < regions.len() && (#[trigger] regions[i] is Stack) == stack
}

} // verus!
