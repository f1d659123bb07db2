//! The memory of the child as the tracing layer shows it: a word read at an
//! address holds the eight bytes from that address on, the lowest first,
//! and a word written there replaces those eight bytes. The address need
//! not be a multiple of eight.
//!
//! Nothing here is executed. The laws say what the words that the debugger
//! asks to be written do to a memory that behaves in this way.
use vstd::prelude::*;
use crate::breakpoint::{breakpoint, low_byte, with_low_byte, TRAP_BYTE};
use crate::format::{lemma_overlay_keeps_high_bits, low_mask, overlaid};

verus! {

/// The word made of eight bytes, the lowest first.
pub open spec fn word_of(b: Seq<u8>) -> u64 {
    (b[0] as u64) | (b[1] as u64) << 8 | (b[2] as u64) << 16 | (b[3] as u64) << 24 | (b[4] as u64)
        << 32 | (b[5] as u64) << 40 | (b[6] as u64) << 48 | (b[7] as u64) << 56
}

/// The eight bytes of a word, the lowest first.
pub open spec fn bytes_of(word: u64) -> Seq<u8> {
    seq![
        (word & 0xff) as u8,
        ((word >> 8) & 0xff) as u8,
        ((word >> 16) & 0xff) as u8,
        ((word >> 24) & 0xff) as u8,
        ((word >> 32) & 0xff) as u8,
        ((word >> 40) & 0xff) as u8,
        ((word >> 48) & 0xff) as u8,
        ((word >> 56) & 0xff) as u8,
    ]
}

/// The byte at an address of a memory.
pub open spec fn byte_at(mem: spec_fn(int) -> u8, addr: int) -> u8 {
    mem(addr)
}

/// The word read at an address of a memory.
pub open spec fn read_word(mem: spec_fn(int) -> u8, addr: int) -> u64 {
    word_of(Seq::new(8, |i: int| mem(addr + i)))
}

/// The memory after a word has been written at an address.
pub open spec fn write_word(mem: spec_fn(int) -> u8, addr: int, word: u64) -> spec_fn(int) -> u8 {
    |a: int|
        if addr <= a < addr + 8 {
            bytes_of(word)[a - addr]
        } else {
            mem(a)
        }
}

/// The bytes of a word make the word.
pub proof fn lemma_word_of_bytes(word: u64)
    ensures
        word_of(bytes_of(word)) == word,
{
    assert(((word & 0xff) as u8 as u64) | (((word >> 8) & 0xff) as u8 as u64) << 8 | (((word >> 16)
        & 0xff) as u8 as u64) << 16 | (((word >> 24) & 0xff) as u8 as u64) << 24 | (((word >> 32)
        & 0xff) as u8 as u64) << 32 | (((word >> 40) & 0xff) as u8 as u64) << 40 | (((word >> 48)
        & 0xff) as u8 as u64) << 48 | (((word >> 56) & 0xff) as u8 as u64) << 56 == word)
        by (bit_vector);
}

/// The low byte of a word made of bytes is the first of the bytes.
pub proof fn lemma_low_byte_of_word(b: Seq<u8>)
    ensures
        low_byte(word_of(b)) == b[0],
{
    let (b0, b1, b2, b3, b4, b5, b6, b7) = (b[0], b[1], b[2], b[3], b[4], b[5], b[6], b[7]);
    assert((((b0 as u64) | (b1 as u64) << 8 | (b2 as u64) << 16 | (b3 as u64) << 24 | (b4 as u64)
        << 32 | (b5 as u64) << 40 | (b6 as u64) << 48 | (b7 as u64) << 56) & 0xff) as u8 == b0)
        by (bit_vector);
}

/// A word that has been written at an address is the word read there, its
/// low byte is the byte at the address, and no byte outside the eight from
/// the address on has changed.
pub proof fn lemma_read_after_write(mem: spec_fn(int) -> u8, addr: int, word: u64)
    ensures
        read_word(write_word(mem, addr, word), addr) == word,
        byte_at(write_word(mem, addr, word), addr) == low_byte(word),
        forall|a: int|
            !(addr <= a < addr + 8) ==> #[trigger] byte_at(write_word(mem, addr, word), a)
                == byte_at(mem, a),
{
    let after = write_word(mem, addr, word);
    assert(Seq::new(8, |i: int| after(addr + i)) =~= bytes_of(word));
    lemma_word_of_bytes(word);
}

/// The byte at an address is the low byte of the word read there.
pub proof fn lemma_byte_at(mem: spec_fn(int) -> u8, addr: int)
    ensures
        low_byte(read_word(mem, addr)) == byte_at(mem, addr),
{
    lemma_low_byte_of_word(Seq::new(8, |i: int| mem(addr + i)));
}

/// Arming a breakpoint puts the trap instruction at its address and changes
/// no other byte; disarming it afterwards puts back the byte that stood
/// there, so that every byte of the memory is what it was.
pub proof fn lemma_arm_and_disarm_in_memory(mem: spec_fn(int) -> u8, bp: breakpoint)
    requires
        !bp.enabled,
    ensures
        ({
            let addr = bp.addr as int;
            let read = read_word(mem, addr);
            let armed = write_word(mem, addr, with_low_byte(read, TRAP_BYTE));
            let again = read_word(armed, addr);
            let disarmed = write_word(armed, addr, bp.armed_over(read).restored_word(again));
            &&& read_word(armed, addr) & 0xff == 0xcc
            &&& byte_at(armed, addr) == TRAP_BYTE
            &&& forall|a: int| a != addr ==> #[trigger] byte_at(armed, a) == byte_at(mem, a)
            &&& bp.armed_over(read).saved_data == Some(byte_at(mem, addr))
            &&& read_word(disarmed, addr) & 0xff == byte_at(mem, addr)
            &&& forall|a: int| #[trigger] byte_at(disarmed, a) == byte_at(mem, a)
        }),
{
    let addr = bp.addr as int;
    let read = read_word(mem, addr);
    let patched = with_low_byte(read, TRAP_BYTE);
    let armed = write_word(mem, addr, patched);
    let again = read_word(armed, addr);
    let restored = bp.armed_over(read).restored_word(again);
    let disarmed = write_word(armed, addr, restored);
    lemma_read_after_write(mem, addr, patched);
    lemma_read_after_write(armed, addr, restored);
    crate::breakpoint::lemma_arm_then_disarm(bp, read);
    crate::breakpoint::lemma_low_byte_replaced(read, TRAP_BYTE);
    lemma_byte_at(mem, addr);
    assert(restored == read);
    assert(patched & 0xff == 0xcc);
    assert(read & 0xff == low_byte(read)) by (bit_vector);
    let before = Seq::new(8, |i: int| mem(addr + i));
    assert forall|a: int| a != addr implies #[trigger] byte_at(armed, a) == byte_at(mem, a) by {
        if addr < a < addr + 8 {
            let i = a - addr;
            assert(bytes_of(patched)[i] == bytes_of(read)[i]) by {
                assert(((patched >> 8) & 0xff) == ((read >> 8) & 0xff)
                    && ((patched >> 16) & 0xff) == ((read >> 16) & 0xff)
                    && ((patched >> 24) & 0xff) == ((read >> 24) & 0xff)
                    && ((patched >> 32) & 0xff) == ((read >> 32) & 0xff)
                    && ((patched >> 40) & 0xff) == ((read >> 40) & 0xff)
                    && ((patched >> 48) & 0xff) == ((read >> 48) & 0xff)
                    && ((patched >> 56) & 0xff) == ((read >> 56) & 0xff)) by (bit_vector)
                    requires
                        patched & !0xffu64 == read & !0xffu64,
                ;
            }
            lemma_bytes_of_word(before);
            assert(before[i] == mem(a));
        }
    }
    assert forall|a: int| #[trigger] byte_at(disarmed, a) == byte_at(mem, a) by {
        if addr <= a < addr + 8 {
            lemma_bytes_of_word(before);
            assert(before[a - addr] == mem(a));
        }
    }
}

/// The word made of eight bytes has those bytes.
pub proof fn lemma_bytes_of_word(b: Seq<u8>)
    requires
        b.len() == 8,
    ensures
        bytes_of(word_of(b)) == b,
{
    let (b0, b1, b2, b3, b4, b5, b6, b7) = (b[0], b[1], b[2], b[3], b[4], b[5], b[6], b[7]);
    let w = word_of(b);
    assert(w == (b0 as u64) | (b1 as u64) << 8 | (b2 as u64) << 16 | (b3 as u64) << 24 | (b4 as u64)
        << 32 | (b5 as u64) << 40 | (b6 as u64) << 48 | (b7 as u64) << 56);
    assert((w & 0xff) as u8 == b0 && ((w >> 8) & 0xff) as u8 == b1 && ((w >> 16) & 0xff) as u8 == b2
        && ((w >> 24) & 0xff) as u8 == b3 && ((w >> 32) & 0xff) as u8 == b4 && ((w >> 40)
        & 0xff) as u8 == b5 && ((w >> 48) & 0xff) as u8 == b6 && ((w >> 56) & 0xff) as u8 == b7)
        by (bit_vector)
        requires
            w == (b0 as u64) | (b1 as u64) << 8 | (b2 as u64) << 16 | (b3 as u64) << 24 | (
            b4 as u64) << 32 | (b5 as u64) << 40 | (b6 as u64) << 48 | (b7 as u64) << 56,
    ;
    assert(bytes_of(w) =~= b);
}

/// A write at a width: the word read back has the low bytes of the value
/// that was written, and above them the bits that the memory held before.
pub proof fn lemma_sub_word_write(mem: spec_fn(int) -> u8, addr: int, n_bytes: u8, val: u64)
    ensures
        ({
            let before = read_word(mem, addr);
            let after = read_word(write_word(mem, addr, overlaid(n_bytes, before, val)), addr);
            &&& after & low_mask(n_bytes) == val & low_mask(n_bytes)
            &&& after & !low_mask(n_bytes) == before & !low_mask(n_bytes)
            &&& n_bytes >= 8 ==> after == val
        }),
{
    let before = read_word(mem, addr);
    lemma_read_after_write(mem, addr, overlaid(n_bytes, before, val));
    lemma_overlay_keeps_high_bits(n_bytes, before, val);
}

} // verus!
