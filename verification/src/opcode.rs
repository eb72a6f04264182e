//! Encoding and decoding of 16-bit instruction words.
//!
//! A word is stored in memory big-endian: most-significant byte first.  The
//! decoder splits a word into four nibble fields `c`, `x`, `y`, `d` (from the
//! top bits down) and a 12-bit immediate `nnn` (the low three nibbles).

use vstd::prelude::*;

verus! {

/// The 16-bit word formed from two bytes, high-order byte first.
pub open spec fn word_from_bytes(hi: u8, lo: u8) -> u16 {
    ((hi as u16) << 8) | (lo as u16)
}

/// The most-significant byte of a word.
pub open spec fn hi_byte(v: u16) -> u8 {
    (v >> 8) as u8
}

/// The least-significant byte of a word.
pub open spec fn lo_byte(v: u16) -> u8 {
    v as u8
}

/// The word stored big-endian at address `a` of `mem`.
pub open spec fn word_at(mem: Seq<u8>, a: int) -> u16 {
    word_from_bytes(mem[a], mem[a + 1])
}

/// `mem` after the word `v` is stored big-endian at address `a`.
pub open spec fn stored_word(mem: Seq<u8>, a: int, v: u16) -> Seq<u8> {
    mem.update(a, hi_byte(v)).update(a + 1, lo_byte(v))
}

/// The top nibble of an opcode: the primary instruction class selector.
pub open spec fn op_c(op: u16) -> u8 {
    ((op & 0xF000) >> 12) as u8
}

/// Bits 11-8 of an opcode: typically a register index.
pub open spec fn op_x(op: u16) -> u8 {
    ((op & 0x0F00) >> 8) as u8
}

/// Bits 7-4 of an opcode: typically a second register index.
pub open spec fn op_y(op: u16) -> u8 {
    ((op & 0x00F0) >> 4) as u8
}

/// The bottom nibble of an opcode: a sub-operation selector.
pub open spec fn op_d(op: u16) -> u8 {
    (op & 0x000F) as u8
}

/// The low 12 bits of an opcode: an address immediate for jumps and calls.
pub open spec fn op_nnn(op: u16) -> u16 {
    op & 0x0FFF
}

/// Every nibble field is a valid register index, and the immediate is a
/// valid memory address.
pub proof fn lemma_nibble_range(op: u16)
    ensures
        op_c(op) < 16,
        op_x(op) < 16,
        op_y(op) < 16,
        op_d(op) < 16,
        op_nnn(op) < 4096,
{
    assert((((op & 0xF000) >> 12) as u8) < 16) by (bit_vector);
    assert((((op & 0x0F00) >> 8) as u8) < 16) by (bit_vector);
    assert((((op & 0x00F0) >> 4) as u8) < 16) by (bit_vector);
    assert(((op & 0x000F) as u8) < 16) by (bit_vector);
    assert((op & 0x0FFF) < 4096) by (bit_vector);
}

} // verus!
