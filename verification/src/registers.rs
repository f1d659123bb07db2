//! The closed set of register names and the two forms of a register set: the
//! bank as the processor lays it out, and the mapping from names to values.
use vstd::prelude::*;
use vstd::string::*;
use crate::text::{text_is, to_chars};

verus! {

/// How many registers a bank holds.
pub const REGISTER_COUNT: usize = 27;

/// The general-purpose, segment and flag registers of the traced process.
#[derive(Clone, Copy, Debug, PartialEq, Eq, Hash, Structural)]
pub enum Register {
    Rax,
    Rbx,
    Rcx,
    Rdx,
    Rdi,
    Rsi,
    Rbp,
    Rsp,
    R8,
    R9,
    R10,
    R11,
    R12,
    R13,
    R14,
    R15,
    Rip,
    Eflags,
    Cs,
    Ds,
    Es,
    Fs,
    Gs,
    GsBase,
    FsBase,
    Ss,
    OrigRax,
}

/// The register set as the processor lays it out, one field for each register.
#[derive(Clone, Copy, Debug, PartialEq, Eq, Structural)]
pub struct RegisterBank {
    pub rax: u64,
    pub rbx: u64,
    pub rcx: u64,
    pub rdx: u64,
    pub rdi: u64,
    pub rsi: u64,
    pub rbp: u64,
    pub rsp: u64,
    pub r8: u64,
    pub r9: u64,
    pub r10: u64,
    pub r11: u64,
    pub r12: u64,
    pub r13: u64,
    pub r14: u64,
    pub r15: u64,
    pub rip: u64,
    pub eflags: u64,
    pub cs: u64,
    pub ds: u64,
    pub es: u64,
    pub fs: u64,
    pub gs: u64,
    pub gs_base: u64,
    pub fs_base: u64,
    pub ss: u64,
    pub orig_rax: u64,
}

impl Register {
    /// The place of the register in the by-name mapping.
    pub open spec fn spec_index(self) -> int {
        match self {
            Register::Rax => 0,
            Register::Rbx => 1,
            Register::Rcx => 2,
            Register::Rdx => 3,
            Register::Rdi => 4,
            Register::Rsi => 5,
            Register::Rbp => 6,
            Register::Rsp => 7,
            Register::R8 => 8,
            Register::R9 => 9,
            Register::R10 => 10,
            Register::R11 => 11,
            Register::R12 => 12,
            Register::R13 => 13,
            Register::R14 => 14,
            Register::R15 => 15,
            Register::Rip => 16,
            Register::Eflags => 17,
            Register::Cs => 18,
            Register::Ds => 19,
            Register::Es => 20,
            Register::Fs => 21,
            Register::Gs => 22,
            Register::GsBase => 23,
            Register::FsBase => 24,
            Register::Ss => 25,
            Register::OrigRax => 26,
        }
    }

    /// The register at a place of the by-name mapping.
    pub open spec fn spec_from_index(i: int) -> Register {
        if i == 0 {
            Register::Rax
        } else if i == 1 {
            Register::Rbx
        } else if i == 2 {
            Register::Rcx
        } else if i == 3 {
            Register::Rdx
        } else if i == 4 {
            Register::Rdi
        } else if i == 5 {
            Register::Rsi
        } else if i == 6 {
            Register::Rbp
        } else if i == 7 {
            Register::Rsp
        } else if i == 8 {
            Register::R8
        } else if i == 9 {
            Register::R9
        } else if i == 10 {
            Register::R10
        } else if i == 11 {
            Register::R11
        } else if i == 12 {
            Register::R12
        } else if i == 13 {
            Register::R13
        } else if i == 14 {
            Register::R14
        } else if i == 15 {
            Register::R15
        } else if i == 16 {
            Register::Rip
        } else if i == 17 {
            Register::Eflags
        } else if i == 18 {
            Register::Cs
        } else if i == 19 {
            Register::Ds
        } else if i == 20 {
            Register::Es
        } else if i == 21 {
            Register::Fs
        } else if i == 22 {
            Register::Gs
        } else if i == 23 {
            Register::GsBase
        } else if i == 24 {
            Register::FsBase
        } else if i == 25 {
            Register::Ss
        } else {
            Register::OrigRax
        }
    }

    /// The name of the register as a user types it.
    pub open spec fn spec_name(self) -> Seq<char> {
        match self {
            Register::Rax => "rax"@,
            Register::Rbx => "rbx"@,
            Register::Rcx => "rcx"@,
            Register::Rdx => "rdx"@,
            Register::Rdi => "rdi"@,
            Register::Rsi => "rsi"@,
            Register::Rbp => "rbp"@,
            Register::Rsp => "rsp"@,
            Register::R8 => "r8"@,
            Register::R9 => "r9"@,
            Register::R10 => "r10"@,
            Register::R11 => "r11"@,
            Register::R12 => "r12"@,
            Register::R13 => "r13"@,
            Register::R14 => "r14"@,
            Register::R15 => "r15"@,
            Register::Rip => "rip"@,
            Register::Eflags => "eflags"@,
            Register::Cs => "cs"@,
            Register::Ds => "ds"@,
            Register::Es => "es"@,
            Register::Fs => "fs"@,
            Register::Gs => "gs"@,
            Register::GsBase => "gs_base"@,
            Register::FsBase => "fs_base"@,
            Register::Ss => "ss"@,
            Register::OrigRax => "orig_rax"@,
        }
    }

    pub fn index(self) -> (i: usize)
        ensures
            i == self.spec_index(),
            i < REGISTER_COUNT,
    {
        match self {
            Register::Rax => 0,
            Register::Rbx => 1,
            Register::Rcx => 2,
            Register::Rdx => 3,
            Register::Rdi => 4,
            Register::Rsi => 5,
            Register::Rbp => 6,
            Register::Rsp => 7,
            Register::R8 => 8,
            Register::R9 => 9,
            Register::R10 => 10,
            Register::R11 => 11,
            Register::R12 => 12,
            Register::R13 => 13,
            Register::R14 => 14,
            Register::R15 => 15,
            Register::Rip => 16,
            Register::Eflags => 17,
            Register::Cs => 18,
            Register::Ds => 19,
            Register::Es => 20,
            Register::Fs => 21,
            Register::Gs => 22,
            Register::GsBase => 23,
            Register::FsBase => 24,
            Register::Ss => 25,
            Register::OrigRax => 26,
        }
    }

    pub fn from_index(i: usize) -> (r: Register)
        requires
            i < REGISTER_COUNT,
        ensures
            r == Register::spec_from_index(i as int),
            r.spec_index() == i,
    {
        if i == 0 {
            Register::Rax
        } else if i == 1 {
            Register::Rbx
        } else if i == 2 {
            Register::Rcx
        } else if i == 3 {
            Register::Rdx
        } else if i == 4 {
            Register::Rdi
        } else if i == 5 {
            Register::Rsi
        } else if i == 6 {
            Register::Rbp
        } else if i == 7 {
            Register::Rsp
        } else if i == 8 {
            Register::R8
        } else if i == 9 {
            Register::R9
        } else if i == 10 {
            Register::R10
        } else if i == 11 {
            Register::R11
        } else if i == 12 {
            Register::R12
        } else if i == 13 {
            Register::R13
        } else if i == 14 {
            Register::R14
        } else if i == 15 {
            Register::R15
        } else if i == 16 {
            Register::Rip
        } else if i == 17 {
            Register::Eflags
        } else if i == 18 {
            Register::Cs
        } else if i == 19 {
            Register::Ds
        } else if i == 20 {
            Register::Es
        } else if i == 21 {
            Register::Fs
        } else if i == 22 {
            Register::Gs
        } else if i == 23 {
            Register::GsBase
        } else if i == 24 {
            Register::FsBase
        } else if i == 25 {
            Register::Ss
        } else {
            Register::OrigRax
        }
    }

    pub fn name(self) -> (s: &'static str)
        ensures
            s@ == self.spec_name(),
    {
        match self {
            Register::Rax => "rax",
            Register::Rbx => "rbx",
            Register::Rcx => "rcx",
            Register::Rdx => "rdx",
            Register::Rdi => "rdi",
            Register::Rsi => "rsi",
            Register::Rbp => "rbp",
            Register::Rsp => "rsp",
            Register::R8 => "r8",
            Register::R9 => "r9",
            Register::R10 => "r10",
            Register::R11 => "r11",
            Register::R12 => "r12",
            Register::R13 => "r13",
            Register::R14 => "r14",
            Register::R15 => "r15",
            Register::Rip => "rip",
            Register::Eflags => "eflags",
            Register::Cs => "cs",
            Register::Ds => "ds",
            Register::Es => "es",
            Register::Fs => "fs",
            Register::Gs => "gs",
            Register::GsBase => "gs_base",
            Register::FsBase => "fs_base",
            Register::Ss => "ss",
            Register::OrigRax => "orig_rax",
        }
    }

    /// The register that a name stands for; `None` for any other text.
    pub fn from_name(name: &str) -> (r: Option<Register>)
        ensures
            r == register_named(name@),
    {
        let text = to_chars(name);
        Register::from_text(&text)
    }

    /// The register that a text names; `None` for any other text.
    pub fn from_text(name: &Vec<char>) -> (r: Option<Register>)
        ensures
            r == register_named(name@),
    {
        let mut i: usize = 0;
        while i < REGISTER_COUNT
            invariant
                i <= REGISTER_COUNT,
                forall|j: int| 0 <= j < i ==> Register::spec_from_index(j).spec_name() != name@,
            decreases REGISTER_COUNT - i,
        {
            let reg = Register::from_index(i);
            if text_is(name, reg.name()) {
                proof {
                    lemma_names_differ();
                    assert forall|other: Register| other.spec_name() == name@ implies other
                        == reg by {
                        lemma_index_round_trip(other);
                    }
                }
                return Some(reg);
            }
            i = i + 1;
        }
        proof {
            assert forall|other: Register| other.spec_name() != name@ by {
                lemma_index_round_trip(other);
            }
        }
        None
    }
}

/// The register with a given name, where there is one.
pub open spec fn register_named(name: Seq<char>) -> Option<Register> {
    if exists|r: Register| r.spec_name() == name {
        Some(choose|r: Register| r.spec_name() == name)
    } else {
        None
    }
}

/// Every register has a place in the mapping, and the place leads back to it.
pub proof fn lemma_index_round_trip(r: Register)
    ensures
        0 <= r.spec_index() < REGISTER_COUNT,
        Register::spec_from_index(r.spec_index()) == r,
{
}

/// No two registers share a name.
pub proof fn lemma_names_differ()
    ensures
        forall|a: Register, b: Register| #[trigger] a.spec_name() == #[trigger] b.spec_name() ==> a == b,
{
    reveal_strlit("rax");
    reveal_strlit("rbx");
    reveal_strlit("rcx");
    reveal_strlit("rdx");
    reveal_strlit("rdi");
    reveal_strlit("rsi");
    reveal_strlit("rbp");
    reveal_strlit("rsp");
    reveal_strlit("r8");
    reveal_strlit("r9");
    reveal_strlit("r10");
    reveal_strlit("r11");
    reveal_strlit("r12");
    reveal_strlit("r13");
    reveal_strlit("r14");
    reveal_strlit("r15");
    reveal_strlit("rip");
    reveal_strlit("eflags");
    reveal_strlit("cs");
    reveal_strlit("ds");
    reveal_strlit("es");
    reveal_strlit("fs");
    reveal_strlit("gs");
    reveal_strlit("gs_base");
    reveal_strlit("fs_base");
    reveal_strlit("ss");
    reveal_strlit("orig_rax");
    assert forall|a: Register, b: Register| #[trigger]
        a.spec_name() == #[trigger] b.spec_name() implies a == b by {
        lemma_name_shape(a);
        lemma_name_shape(b);
    }
}

/// The code that tells the names apart: the length of a name and the
/// characters at which names of one length differ.
spec fn name_code(s: Seq<char>) -> (int, char, char, char) {
    (
        s.len() as int,
        if s.len() > 0 { s[0] } else { ' ' },
        if s.len() > 1 { s[1] } else { ' ' },
        if s.len() > 2 { s[2] } else { ' ' },
    )
}

proof fn lemma_name_shape(r: Register)
    ensures
        name_code(r.spec_name()) == (match r {
            Register::Rax => (3int, 'r', 'a', 'x'),
            Register::Rbx => (3int, 'r', 'b', 'x'),
            Register::Rcx => (3int, 'r', 'c', 'x'),
            Register::Rdx => (3int, 'r', 'd', 'x'),
            Register::Rdi => (3int, 'r', 'd', 'i'),
            Register::Rsi => (3int, 'r', 's', 'i'),
            Register::Rbp => (3int, 'r', 'b', 'p'),
            Register::Rsp => (3int, 'r', 's', 'p'),
            Register::R8 => (2int, 'r', '8', ' '),
            Register::R9 => (2int, 'r', '9', ' '),
            Register::R10 => (3int, 'r', '1', '0'),
            Register::R11 => (3int, 'r', '1', '1'),
            Register::R12 => (3int, 'r', '1', '2'),
            Register::R13 => (3int, 'r', '1', '3'),
            Register::R14 => (3int, 'r', '1', '4'),
            Register::R15 => (3int, 'r', '1', '5'),
            Register::Rip => (3int, 'r', 'i', 'p'),
            Register::Eflags => (6int, 'e', 'f', 'l'),
            Register::Cs => (2int, 'c', 's', ' '),
            Register::Ds => (2int, 'd', 's', ' '),
            Register::Es => (2int, 'e', 's', ' '),
            Register::Fs => (2int, 'f', 's', ' '),
            Register::Gs => (2int, 'g', 's', ' '),
            Register::GsBase => (7int, 'g', 's', '_'),
            Register::FsBase => (7int, 'f', 's', '_'),
            Register::Ss => (2int, 's', 's', ' '),
            Register::OrigRax => (8int, 'o', 'r', 'i'),
        }),
{
    reveal_strlit("rax");
    reveal_strlit("rbx");
    reveal_strlit("rcx");
    reveal_strlit("rdx");
    reveal_strlit("rdi");
    reveal_strlit("rsi");
    reveal_strlit("rbp");
    reveal_strlit("rsp");
    reveal_strlit("r8");
    reveal_strlit("r9");
    reveal_strlit("r10");
    reveal_strlit("r11");
    reveal_strlit("r12");
    reveal_strlit("r13");
    reveal_strlit("r14");
    reveal_strlit("r15");
    reveal_strlit("rip");
    reveal_strlit("eflags");
    reveal_strlit("cs");
    reveal_strlit("ds");
    reveal_strlit("es");
    reveal_strlit("fs");
    reveal_strlit("gs");
    reveal_strlit("gs_base");
    reveal_strlit("fs_base");
    reveal_strlit("ss");
    reveal_strlit("orig_rax");
}

impl RegisterBank {
    /// The bank with every register zero.
    pub fn zeroed() -> (b: RegisterBank)
        ensures
            forall|r: Register| b.spec_get(r) == 0,
    {
        RegisterBank {
            rax: 0,
            rbx: 0,
            rcx: 0,
            rdx: 0,
            rdi: 0,
            rsi: 0,
            rbp: 0,
            rsp: 0,
            r8: 0,
            r9: 0,
            r10: 0,
            r11: 0,
            r12: 0,
            r13: 0,
            r14: 0,
            r15: 0,
            rip: 0,
            eflags: 0,
            cs: 0,
            ds: 0,
            es: 0,
            fs: 0,
            gs: 0,
            gs_base: 0,
            fs_base: 0,
            ss: 0,
            orig_rax: 0,
        }
    }

    pub open spec fn spec_get(self, r: Register) -> u64 {
        match r {
            Register::Rax => self.rax,
            Register::Rbx => self.rbx,
            Register::Rcx => self.rcx,
            Register::Rdx => self.rdx,
            Register::Rdi => self.rdi,
            Register::Rsi => self.rsi,
            Register::Rbp => self.rbp,
            Register::Rsp => self.rsp,
            Register::R8 => self.r8,
            Register::R9 => self.r9,
            Register::R10 => self.r10,
            Register::R11 => self.r11,
            Register::R12 => self.r12,
            Register::R13 => self.r13,
            Register::R14 => self.r14,
            Register::R15 => self.r15,
            Register::Rip => self.rip,
            Register::Eflags => self.eflags,
            Register::Cs => self.cs,
            Register::Ds => self.ds,
            Register::Es => self.es,
            Register::Fs => self.fs,
            Register::Gs => self.gs,
            Register::GsBase => self.gs_base,
            Register::FsBase => self.fs_base,
            Register::Ss => self.ss,
            Register::OrigRax => self.orig_rax,
        }
    }

    pub open spec fn spec_set(self, r: Register, val: u64) -> RegisterBank {
        match r {
            Register::Rax => RegisterBank { rax: val, ..self },
            Register::Rbx => RegisterBank { rbx: val, ..self },
            Register::Rcx => RegisterBank { rcx: val, ..self },
            Register::Rdx => RegisterBank { rdx: val, ..self },
            Register::Rdi => RegisterBank { rdi: val, ..self },
            Register::Rsi => RegisterBank { rsi: val, ..self },
            Register::Rbp => RegisterBank { rbp: val, ..self },
            Register::Rsp => RegisterBank { rsp: val, ..self },
            Register::R8 => RegisterBank { r8: val, ..self },
            Register::R9 => RegisterBank { r9: val, ..self },
            Register::R10 => RegisterBank { r10: val, ..self },
            Register::R11 => RegisterBank { r11: val, ..self },
            Register::R12 => RegisterBank { r12: val, ..self },
            Register::R13 => RegisterBank { r13: val, ..self },
            Register::R14 => RegisterBank { r14: val, ..self },
            Register::R15 => RegisterBank { r15: val, ..self },
            Register::Rip => RegisterBank { rip: val, ..self },
            Register::Eflags => RegisterBank { eflags: val, ..self },
            Register::Cs => RegisterBank { cs: val, ..self },
            Register::Ds => RegisterBank { ds: val, ..self },
            Register::Es => RegisterBank { es: val, ..self },
            Register::Fs => RegisterBank { fs: val, ..self },
            Register::Gs => RegisterBank { gs: val, ..self },
            Register::GsBase => RegisterBank { gs_base: val, ..self },
            Register::FsBase => RegisterBank { fs_base: val, ..self },
            Register::Ss => RegisterBank { ss: val, ..self },
            Register::OrigRax => RegisterBank { orig_rax: val, ..self },
        }
    }

    pub fn get(&self, r: Register) -> (val: u64)
        ensures
            val == self.spec_get(r),
    {
        match r {
            Register::Rax => self.rax,
            Register::Rbx => self.rbx,
            Register::Rcx => self.rcx,
            Register::Rdx => self.rdx,
            Register::Rdi => self.rdi,
            Register::Rsi => self.rsi,
            Register::Rbp => self.rbp,
            Register::Rsp => self.rsp,
            Register::R8 => self.r8,
            Register::R9 => self.r9,
            Register::R10 => self.r10,
            Register::R11 => self.r11,
            Register::R12 => self.r12,
            Register::R13 => self.r13,
            Register::R14 => self.r14,
            Register::R15 => self.r15,
            Register::Rip => self.rip,
            Register::Eflags => self.eflags,
            Register::Cs => self.cs,
            Register::Ds => self.ds,
            Register::Es => self.es,
            Register::Fs => self.fs,
            Register::Gs => self.gs,
            Register::GsBase => self.gs_base,
            Register::FsBase => self.fs_base,
            Register::Ss => self.ss,
            Register::OrigRax => self.orig_rax,
        }
    }

    /// Sets one register and leaves the others as they were.
    pub fn set(&mut self, r: Register, val: u64)
        ensures
            *final(self) == old(self).spec_set(r, val),
    {
        match r {
            Register::Rax => { self.rax = val; },
            Register::Rbx => { self.rbx = val; },
            Register::Rcx => { self.rcx = val; },
            Register::Rdx => { self.rdx = val; },
            Register::Rdi => { self.rdi = val; },
            Register::Rsi => { self.rsi = val; },
            Register::Rbp => { self.rbp = val; },
            Register::Rsp => { self.rsp = val; },
            Register::R8 => { self.r8 = val; },
            Register::R9 => { self.r9 = val; },
            Register::R10 => { self.r10 = val; },
            Register::R11 => { self.r11 = val; },
            Register::R12 => { self.r12 = val; },
            Register::R13 => { self.r13 = val; },
            Register::R14 => { self.r14 = val; },
            Register::R15 => { self.r15 = val; },
            Register::Rip => { self.rip = val; },
            Register::Eflags => { self.eflags = val; },
            Register::Cs => { self.cs = val; },
            Register::Ds => { self.ds = val; },
            Register::Es => { self.es = val; },
            Register::Fs => { self.fs = val; },
            Register::Gs => { self.gs = val; },
            Register::GsBase => { self.gs_base = val; },
            Register::FsBase => { self.fs_base = val; },
            Register::Ss => { self.ss = val; },
            Register::OrigRax => { self.orig_rax = val; },
        }
    }
}

/// Two banks that agree on every register are the same bank.
pub proof fn lemma_bank_extensional(a: RegisterBank, b: RegisterBank)
    requires
        forall|r: Register| a.spec_get(r) == b.spec_get(r),
    ensures
        a == b,
{
    assert(a.spec_get(Register::Rax) == b.spec_get(Register::Rax));
    assert(a.spec_get(Register::Rbx) == b.spec_get(Register::Rbx));
    assert(a.spec_get(Register::Rcx) == b.spec_get(Register::Rcx));
    assert(a.spec_get(Register::Rdx) == b.spec_get(Register::Rdx));
    assert(a.spec_get(Register::Rdi) == b.spec_get(Register::Rdi));
    assert(a.spec_get(Register::Rsi) == b.spec_get(Register::Rsi));
    assert(a.spec_get(Register::Rbp) == b.spec_get(Register::Rbp));
    assert(a.spec_get(Register::Rsp) == b.spec_get(Register::Rsp));
    assert(a.spec_get(Register::R8) == b.spec_get(Register::R8));
    assert(a.spec_get(Register::R9) == b.spec_get(Register::R9));
    assert(a.spec_get(Register::R10) == b.spec_get(Register::R10));
    assert(a.spec_get(Register::R11) == b.spec_get(Register::R11));
    assert(a.spec_get(Register::R12) == b.spec_get(Register::R12));
    assert(a.spec_get(Register::R13) == b.spec_get(Register::R13));
    assert(a.spec_get(Register::R14) == b.spec_get(Register::R14));
    assert(a.spec_get(Register::R15) == b.spec_get(Register::R15));
    assert(a.spec_get(Register::Rip) == b.spec_get(Register::Rip));
    assert(a.spec_get(Register::Eflags) == b.spec_get(Register::Eflags));
    assert(a.spec_get(Register::Cs) == b.spec_get(Register::Cs));
    assert(a.spec_get(Register::Ds) == b.spec_get(Register::Ds));
    assert(a.spec_get(Register::Es) == b.spec_get(Register::Es));
    assert(a.spec_get(Register::Fs) == b.spec_get(Register::Fs));
    assert(a.spec_get(Register::Gs) == b.spec_get(Register::Gs));
    assert(a.spec_get(Register::GsBase) == b.spec_get(Register::GsBase));
    assert(a.spec_get(Register::FsBase) == b.spec_get(Register::FsBase));
    assert(a.spec_get(Register::Ss) == b.spec_get(Register::Ss));
    assert(a.spec_get(Register::OrigRax) == b.spec_get(Register::OrigRax));
}


/// A mapping from register names to values. It may hold any part of the
/// register set: a snapshot that has captured nothing yet holds none.
#[derive(Clone, Copy, Debug, PartialEq, Eq)]
pub struct RegisterDict {
    slots: [Option<u64>; 27],
}

impl View for RegisterDict {
    type V = Map<Register, u64>;

    closed spec fn view(&self) -> Map<Register, u64> {
        Map::new(
            |r: Register| self.slots[r.spec_index()] is Some,
            |r: Register| self.slots[r.spec_index()]->0,
        )
    }
}

impl RegisterDict {
    /// Whether the mapping holds every register.
    pub open spec fn spec_complete(self) -> bool {
        forall|r: Register| self@.contains_key(r)
    }

    /// The mapping that holds no register.
    pub fn New() -> (d: RegisterDict)
        ensures
            d@ == Map::<Register, u64>::empty(),
    {
        let d = RegisterDict { slots: [None; 27] };
        proof {
            assert forall|r: Register| !d@.contains_key(r) by {
                lemma_index_round_trip(r);
            }
            assert(d@ =~= Map::<Register, u64>::empty());
        }
        d
    }

    pub fn get(&self, r: Register) -> (val: Option<u64>)
        ensures
            val is Some <==> self@.contains_key(r),
            val is Some ==> val->0 == self@[r],
    {
        self.slots[r.index()]
    }

    /// Binds a register to a value, in place of the value it had, if any.
    pub fn insert(&mut self, r: Register, val: u64)
        ensures
            final(self)@ == old(self)@.insert(r, val),
    {
        self.slots[r.index()] = Some(val);
        proof {
            assert forall|other: Register| other != r implies other.spec_index()
                != r.spec_index() by {
                lemma_index_round_trip(other);
                lemma_index_round_trip(r);
            }
            assert(self@ =~= old(self)@.insert(r, val));
        }
    }

    pub fn is_complete(&self) -> (b: bool)
        ensures
            b == self.spec_complete(),
    {
        let mut i: usize = 0;
        while i < REGISTER_COUNT
            invariant
                i <= REGISTER_COUNT,
                forall|j: int| 0 <= j < i ==> self.slots[j] is Some,
            decreases REGISTER_COUNT - i,
        {
            if self.slots[i].is_none() {
                proof {
                    let r = Register::spec_from_index(i as int);
                    assert(r.spec_index() == i);
                    assert(!self@.contains_key(r));
                }
                return false;
            }
            i = i + 1;
        }
        proof {
            assert forall|r: Register| self@.contains_key(r) by {
                lemma_index_round_trip(r);
            }
        }
        true
    }
}

/// The registers that a mapping binds among the first `upto` of the
/// mapping's order, each with its value, in that order.
pub open spec fn bound_rows(m: Map<Register, u64>, upto: int) -> Seq<(Register, u64)>
    decreases upto,
{
    if upto <= 0 {
        Seq::empty()
    } else {
        let front = bound_rows(m, upto - 1);
        let reg = Register::spec_from_index(upto - 1);
        if m.contains_key(reg) {
            front.push((reg, m[reg]))
        } else {
            front
        }
    }
}

/// The mapping that a list of names with values describes: each name of a
/// register binds that register, a later pair for the same register takes
/// the place of an earlier one, and a name of no register is passed over.
pub open spec fn named_mapping(pairs: Seq<(Seq<char>, u64)>) -> Map<Register, u64>
    decreases pairs.len(),
{
    if pairs.len() == 0 {
        Map::empty()
    } else {
        let front = named_mapping(pairs.drop_last());
        match register_named(pairs.last().0) {
            Some(reg) => front.insert(reg, pairs.last().1),
            None => front,
        }
    }
}

/// The names and values of a list of pairs, the names as sequences.
pub open spec fn pair_views(pairs: Seq<(String, u64)>) -> Seq<(Seq<char>, u64)> {
    pairs.map_values(|pair: (String, u64)| (pair.0@, pair.1))
}

impl RegisterDict {
    /// The registers that the mapping binds, each with its value, in the
    /// order of the mapping.
    pub fn entries(&self) -> (rows: Vec<(Register, u64)>)
        ensures
            rows@ == bound_rows(self@, REGISTER_COUNT as int),
    {
        let mut rows: Vec<(Register, u64)> = Vec::new();
        let mut i: usize = 0;
        while i < REGISTER_COUNT
            invariant
                i <= REGISTER_COUNT,
                rows@ == bound_rows(self@, i as int),
            decreases REGISTER_COUNT - i,
        {
            let reg = Register::from_index(i);
            match self.get(reg) {
                Some(val) => {
                    rows.push((reg, val));
                },
                None => {},
            }
            i = i + 1;
        }
        rows
    }

    /// The mapping that a list of names with values describes.
    pub fn from_names(pairs: &Vec<(String, u64)>) -> (dict: RegisterDict)
        ensures
            dict@ == named_mapping(pair_views(pairs@)),
    {
        let mut dict = RegisterDict::New();
        let ghost all = pair_views(pairs@);
        let mut i: usize = 0;
        while i < pairs.len()
            invariant
                i <= pairs.len(),
                all == pair_views(pairs@),
                dict@ == named_mapping(all.take(i as int)),
            decreases pairs.len() - i,
        {
            proof {
                let next = all.take(i + 1);
                assert(next.drop_last() == all.take(i as int));
                assert(next.last() == (pairs@[i as int].0@, pairs@[i as int].1));
            }
            let text = to_chars(pairs[i].0.as_str());
            match Register::from_text(&text) {
                Some(reg) => {
                    dict.insert(reg, pairs[i].1);
                },
                None => {},
            }
            i = i + 1;
        }
        proof {
            assert(all.take(pairs.len() as int) == all);
        }
        dict
    }
}

/// The rows of a mapping with the names of the registers in place of the
/// registers.
pub open spec fn named_rows(rows: Seq<(Register, u64)>) -> Seq<(Seq<char>, u64)> {
    rows.map_values(|row: (Register, u64)| (row.0.spec_name(), row.1))
}

/// The name of a register names that register.
pub proof fn lemma_name_round_trip(reg: Register)
    ensures
        register_named(reg.spec_name()) == Some(reg),
{
    lemma_names_differ();
}

/// The mapping read back from the named rows of the first `upto`
/// registers binds a register as the mapping does, where the register is
/// among those, and not at all, where it is not.
proof fn lemma_named_rows(m: Map<Register, u64>, upto: int, r: Register)
    requires
        0 <= upto <= REGISTER_COUNT,
    ensures
        named_mapping(named_rows(bound_rows(m, upto))).contains_key(r) <==> m.contains_key(r)
            && r.spec_index() < upto,
        m.contains_key(r) && r.spec_index() < upto ==> named_mapping(
            named_rows(bound_rows(m, upto)),
        )[r] == m[r],
    decreases upto,
{
    let back = named_mapping(named_rows(bound_rows(m, upto)));
    lemma_index_round_trip(r);
    if upto == 0 {
        assert(named_rows(bound_rows(m, upto)) =~= Seq::empty());
    } else {
        lemma_named_rows(m, upto - 1, r);
        let reg = Register::spec_from_index(upto - 1);
        let front = bound_rows(m, upto - 1);
        let front_back = named_mapping(named_rows(front));
        assert(reg.spec_index() == upto - 1);
        if m.contains_key(reg) {
            let rows = front.push((reg, m[reg]));
            let named = named_rows(rows);
            assert(named =~= named_rows(front).push((reg.spec_name(), m[reg])));
            assert(named.drop_last() =~= named_rows(front));
            assert(named.last() == (reg.spec_name(), m[reg]));
            lemma_name_round_trip(reg);
            assert(back == front_back.insert(reg, m[reg]));
        } else {
            assert(back == front_back);
        }
    }
}

/// A mapping that is written out as names with values and read back is the
/// same mapping.
pub proof fn lemma_names_round_trip(m: Map<Register, u64>)
    ensures
        named_mapping(named_rows(bound_rows(m, REGISTER_COUNT as int))) == m,
{
    let back = named_mapping(named_rows(bound_rows(m, REGISTER_COUNT as int)));
    assert forall|r: Register| back.contains_key(r) <==> m.contains_key(r) by {
        lemma_named_rows(m, REGISTER_COUNT as int, r);
        lemma_index_round_trip(r);
    }
    assert forall|r: Register| back.contains_key(r) implies back[r] == m[r] by {
        lemma_named_rows(m, REGISTER_COUNT as int, r);
        lemma_index_round_trip(r);
    }
    assert(back =~= m);
}

/// The mapping that binds every register to its value in a bank.
pub open spec fn bank_mapping(bank: RegisterBank) -> Map<Register, u64> {
    Map::new(|r: Register| true, |r: Register| bank.spec_get(r))
}

/// The bank whose registers hold what a mapping binds them to.
pub open spec fn mapping_bank(m: Map<Register, u64>) -> RegisterBank {
    RegisterBank {
        rax: m[Register::Rax],
        rbx: m[Register::Rbx],
        rcx: m[Register::Rcx],
        rdx: m[Register::Rdx],
        rdi: m[Register::Rdi],
        rsi: m[Register::Rsi],
        rbp: m[Register::Rbp],
        rsp: m[Register::Rsp],
        r8: m[Register::R8],
        r9: m[Register::R9],
        r10: m[Register::R10],
        r11: m[Register::R11],
        r12: m[Register::R12],
        r13: m[Register::R13],
        r14: m[Register::R14],
        r15: m[Register::R15],
        rip: m[Register::Rip],
        eflags: m[Register::Eflags],
        cs: m[Register::Cs],
        ds: m[Register::Ds],
        es: m[Register::Es],
        fs: m[Register::Fs],
        gs: m[Register::Gs],
        gs_base: m[Register::GsBase],
        fs_base: m[Register::FsBase],
        ss: m[Register::Ss],
        orig_rax: m[Register::OrigRax],
    }
}

/// The order in which a dump lists the registers.
pub open spec fn dump_order() -> Seq<Register> {
    seq![
        Register::Rax,
        Register::Rbx,
        Register::Rcx,
        Register::Rdx,
        Register::Rdi,
        Register::Rsi,
        Register::Rbp,
        Register::Rsp,
        Register::Rip,
        Register::R8,
        Register::R9,
        Register::R10,
        Register::R11,
        Register::R12,
        Register::R13,
        Register::R14,
        Register::R15,
        Register::Eflags,
        Register::Cs,
        Register::Ds,
        Register::Es,
        Register::Fs,
        Register::Gs,
        Register::Ss,
        Register::GsBase,
        Register::FsBase,
        Register::OrigRax,
    ]
}

/// A bank turned into a mapping and back is the same bank.
pub proof fn lemma_bank_round_trip(bank: RegisterBank)
    ensures
        mapping_bank(bank_mapping(bank)) == bank,
        forall|r: Register| bank_mapping(bank).contains_key(r),
{
}

/// A mapping that holds every register, turned into a bank and back, is the
/// same mapping.
pub proof fn lemma_mapping_round_trip(m: Map<Register, u64>)
    requires
        forall|r: Register| m.contains_key(r),
    ensures
        bank_mapping(mapping_bank(m)) == m,
{
    assert forall|r: Register| bank_mapping(mapping_bank(m))[r] == m[r] by {
        lemma_index_round_trip(r);
    }
    assert(bank_mapping(mapping_bank(m)) =~= m);
}

/// A register that has been set holds the new value; every other register
/// holds what it held.
pub proof fn lemma_get_after_set(bank: RegisterBank, r: Register, val: u64, other: Register)
    ensures
        bank.spec_set(r, val).spec_get(other) == (if other == r {
            val
        } else {
            bank.spec_get(other)
        }),
{
    match r {
        Register::Rax => {
            assert(bank.spec_set(r, val) == RegisterBank { rax: val, ..bank });
        },
        Register::Rbx => {
            assert(bank.spec_set(r, val) == RegisterBank { rbx: val, ..bank });
        },
        Register::Rcx => {
            assert(bank.spec_set(r, val) == RegisterBank { rcx: val, ..bank });
        },
        Register::Rdx => {
            assert(bank.spec_set(r, val) == RegisterBank { rdx: val, ..bank });
        },
        Register::Rdi => {
            assert(bank.spec_set(r, val) == RegisterBank { rdi: val, ..bank });
        },
        Register::Rsi => {
            assert(bank.spec_set(r, val) == RegisterBank { rsi: val, ..bank });
        },
        Register::Rbp => {
            assert(bank.spec_set(r, val) == RegisterBank { rbp: val, ..bank });
        },
        Register::Rsp => {
            assert(bank.spec_set(r, val) == RegisterBank { rsp: val, ..bank });
        },
        Register::R8 => {
            assert(bank.spec_set(r, val) == RegisterBank { r8: val, ..bank });
        },
        Register::R9 => {
            assert(bank.spec_set(r, val) == RegisterBank { r9: val, ..bank });
        },
        Register::R10 => {
            assert(bank.spec_set(r, val) == RegisterBank { r10: val, ..bank });
        },
        Register::R11 => {
            assert(bank.spec_set(r, val) == RegisterBank { r11: val, ..bank });
        },
        Register::R12 => {
            assert(bank.spec_set(r, val) == RegisterBank { r12: val, ..bank });
        },
        Register::R13 => {
            assert(bank.spec_set(r, val) == RegisterBank { r13: val, ..bank });
        },
        Register::R14 => {
            assert(bank.spec_set(r, val) == RegisterBank { r14: val, ..bank });
        },
        Register::R15 => {
            assert(bank.spec_set(r, val) == RegisterBank { r15: val, ..bank });
        },
        Register::Rip => {
            assert(bank.spec_set(r, val) == RegisterBank { rip: val, ..bank });
        },
        Register::Eflags => {
            assert(bank.spec_set(r, val) == RegisterBank { eflags: val, ..bank });
        },
        Register::Cs => {
            assert(bank.spec_set(r, val) == RegisterBank { cs: val, ..bank });
        },
        Register::Ds => {
            assert(bank.spec_set(r, val) == RegisterBank { ds: val, ..bank });
        },
        Register::Es => {
            assert(bank.spec_set(r, val) == RegisterBank { es: val, ..bank });
        },
        Register::Fs => {
            assert(bank.spec_set(r, val) == RegisterBank { fs: val, ..bank });
        },
        Register::Gs => {
            assert(bank.spec_set(r, val) == RegisterBank { gs: val, ..bank });
        },
        Register::GsBase => {
            assert(bank.spec_set(r, val) == RegisterBank { gs_base: val, ..bank });
        },
        Register::FsBase => {
            assert(bank.spec_set(r, val) == RegisterBank { fs_base: val, ..bank });
        },
        Register::Ss => {
            assert(bank.spec_set(r, val) == RegisterBank { ss: val, ..bank });
        },
        Register::OrigRax => {
            assert(bank.spec_set(r, val) == RegisterBank { orig_rax: val, ..bank });
        },
    }
}

/// Setting one register of a bank binds that name anew in its mapping.
pub proof fn lemma_set_is_insert(bank: RegisterBank, r: Register, val: u64)
    ensures
        bank_mapping(bank.spec_set(r, val)) == bank_mapping(bank).insert(r, val),
{
    assert forall|other: Register|
        bank_mapping(bank.spec_set(r, val))[other] == bank_mapping(bank).insert(r, val)[other] by {
        lemma_get_after_set(bank, r, val, other);
    }
    assert(bank_mapping(bank.spec_set(r, val)) =~= bank_mapping(bank).insert(r, val));
}

} // verus!
