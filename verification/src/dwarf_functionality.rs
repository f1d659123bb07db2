//! The questions the debugger puts to the debug information of the
//! debuggee: which subprogram holds a program counter, and what the line
//! table lists.
use vstd::prelude::*;

verus! {

/// The tag of a debugging entry that describes a subprogram.
pub const DW_TAG_subprogram: u16 = 0x2e;

/// The value of an attribute of a debugging entry, as far as the debugger
/// reads it.
#[derive(Clone, Copy, Debug, PartialEq, Eq, Structural)]
pub enum attr_value {
    /// An address.
    Addr(u64),
    /// An unsigned constant.
    Udata(u64),
    /// Any other form.
    Other,
}

/// A debugging entry: its tag and its `low_pc` and `high_pc` attributes,
/// each `None` where the entry has no such attribute.
#[derive(Clone, Copy, Debug, PartialEq, Eq)]
pub struct debug_entry {
    pub tag: u16,
    pub low_pc: Option<attr_value>,
    pub high_pc: Option<attr_value>,
}

/// The program counters that a subprogram covers: from `low_pc` up to, not
/// including, `low_pc + high_pc`.
#[derive(Clone, Copy, Debug, PartialEq, Eq, Structural)]
pub struct pc_range {
    pub low_pc: u64,
    pub high_pc: u64,
}

/// How a row of the line table names its file.
#[derive(Debug, PartialEq, Eq)]
pub enum file_name {
    /// The row's file index leads to no file.
    Missing,
    /// The name is a string of the line-string section.
    LineString(String),
    /// The name has another form.
    Other,
}

/// A row of the line table.
#[derive(Debug, PartialEq, Eq)]
pub struct line_row {
    pub address: u64,
    pub file: file_name,
}

/// What the listing of the line table reports.
#[derive(Clone, Copy, Debug, PartialEq, Eq, Structural)]
pub enum line_report {
    /// The address of a row.
    Address(u64),
    /// The file that a row belongs to: the index of the row whose file
    /// name is to be shown.
    OwnerFile(usize),
}

/// The debug information of the debuggee, read once when the debugger starts.
#[derive(Debug, PartialEq, Eq)]
pub struct debug_info {
    /// The debugging entries of all compilation units, in their order.
    pub entries: Vec<debug_entry>,
    /// The rows of the line table, in the order of the sequences.
    pub rows: Vec<line_row>,
}

impl pc_range {
    pub open spec fn spec_contains(self, pc: u64) -> bool {
        self.low_pc <= pc < self.low_pc + self.high_pc
    }

    pub fn contains(&self, pc: u64) -> (r: bool)
        ensures
            r == self.spec_contains(pc),
    {
        pc >= self.low_pc && pc - self.low_pc < self.high_pc
    }
}

/// The range of a debugging entry: it has one where `low_pc` is an address
/// and `high_pc` an unsigned offset.
pub open spec fn entry_range(func: debug_entry) -> Option<pc_range> {
    match (func.low_pc, func.high_pc) {
        (Some(attr_value::Addr(low)), Some(attr_value::Udata(high))) => Some(
            pc_range { low_pc: low, high_pc: high },
        ),
        _ => None,
    }
}

/// Whether a debugging entry is a subprogram whose range holds `pc`.
pub open spec fn entry_holds(func: debug_entry, pc: u64) -> bool {
    func.tag == DW_TAG_subprogram && entry_range(func) is Some && entry_range(
        func,
    )->0.spec_contains(pc)
}

/// The reports for the rows of a line table: the address of each row, and
/// after it the file of the row where the row names one by a line string.
pub open spec fn line_reports(rows: Seq<line_row>) -> Seq<line_report>
    decreases rows.len(),
{
    if rows.len() == 0 {
        Seq::empty()
    } else {
        let front = line_reports(rows.drop_last()).push(line_report::Address(rows.last().address));
        match rows.last().file {
            file_name::LineString(_) => front.push(
                line_report::OwnerFile((rows.len() - 1) as usize),
            ),
            _ => front,
        }
    }
}

pub fn get_pc_range(func: &debug_entry) -> (r: Option<pc_range>)
    ensures
        r == entry_range(*func),
{
    let low_pc: u64 = match func.low_pc {
        Some(attr_value::Addr(num)) => num,
        _ => {
            return None;
        },
    };
    let high_pc: u64 = match func.high_pc {
        Some(attr_value::Udata(num)) => num,
        _ => {
            return None;
        },
    };
    Some(pc_range { low_pc, high_pc })
}

/// Whether a debugging entry is the first subprogram whose range holds `pc`.
pub open spec fn first_holding(entries: Seq<debug_entry>, pc: u64, i: int) -> bool {
    &&& 0 <= i < entries.len()
    &&& entry_holds(entries[i], pc)
    &&& forall|j: int| 0 <= j < i ==> !entry_holds(entries[j], pc)
}

/// The index of the first subprogram whose range holds `pc`.
pub open spec fn subprogram_at(entries: Seq<debug_entry>, pc: u64) -> Option<usize> {
    if exists|i: int| first_holding(entries, pc, i) {
        Some((choose|i: int| first_holding(entries, pc, i)) as usize)
    } else {
        None
    }
}

/// The index of the first subprogram whose range holds `pc`.
pub fn get_func_from_pc(dwarf_info: &debug_info, pc: u64) -> (r: Option<usize>)
    ensures
        r == subprogram_at(dwarf_info.entries@, pc),
        match r {
            Some(i) => {
                &&& i < dwarf_info.entries@.len()
                &&& entry_holds(dwarf_info.entries@[i as int], pc)
                &&& forall|j: int| 0 <= j < i ==> !entry_holds(dwarf_info.entries@[j], pc)
            },
            None => forall|j: int|
                0 <= j < dwarf_info.entries@.len() ==> !entry_holds(dwarf_info.entries@[j], pc),
        },
{
    let mut i: usize = 0;
    while i < dwarf_info.entries.len()
        invariant
            i <= dwarf_info.entries@.len(),
            forall|j: int| 0 <= j < i ==> !entry_holds(dwarf_info.entries@[j], pc),
        decreases dwarf_info.entries@.len() - i,
    {
        let entry = &dwarf_info.entries[i];
        if entry.tag == DW_TAG_subprogram {
            match get_pc_range(entry) {
                Some(range) => {
                    if range.contains(pc) {
                        proof {
                            let entries = dwarf_info.entries@;
                            assert(first_holding(entries, pc, i as int));
                            let c = choose|c: int| first_holding(entries, pc, c);
                            assert(c == i);
                        }
                        return Some(i);
                    }
                },
                None => {},
            }
        }
        i = i + 1;
    }
    None
}

/// Lists the line table.
pub fn line_stuff(dwarf_info: &debug_info) -> (reports: Vec<line_report>)
    ensures
        reports@ == line_reports(dwarf_info.rows@),
{
    let mut reports: Vec<line_report> = Vec::new();
    let mut i: usize = 0;
    while i < dwarf_info.rows.len()
        invariant
            i <= dwarf_info.rows@.len(),
            reports@ == line_reports(dwarf_info.rows@.take(i as int)),
        decreases dwarf_info.rows@.len() - i,
    {
        proof {
            let next = dwarf_info.rows@.take(i + 1);
            assert(next.drop_last() == dwarf_info.rows@.take(i as int));
            assert(next.last() == dwarf_info.rows@[i as int]);
        }
        let row = &dwarf_info.rows[i];
        reports.push(line_report::Address(row.address));
        match &row.file {
            file_name::LineString(_) => {
                reports.push(line_report::OwnerFile(i));
            },
            _ => {},
        }
        i = i + 1;
    }
    assert(dwarf_info.rows@.take(dwarf_info.rows@.len() as int) == dwarf_info.rows@);
    reports
}

} // verus!
