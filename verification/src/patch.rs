//! Byte-level breakpoint patching.
//!
//! A breakpoint is installed by overwriting the first byte of the target
//! instruction with a one-byte trap opcode.  The tracing interface offers no
//! sub-word memory writes, so every byte patch is a read-modify-write of the
//! aligned machine word containing the address: read the word, splice the new
//! byte in at the right offset, write the whole word back.  The functions here
//! are the pure computations of that protocol; the process-facing reads and
//! writes happen outside the library and hand words in and out as plain
//! values.

use vstd::prelude::*;

verus! {

/// The one-byte trap opcode spliced over an instruction to arm a breakpoint.
pub const TRAP_OPCODE: u8 = 0xcc;

/// Number of bytes in an aligned machine word, as the tracing interface sees it.
pub const WORD_SIZE: usize = 8;

/// The byte at offset `off` (0 = least significant) of `word`.
pub open spec fn word_byte(word: u64, off: u64) -> u8
    recommends
        off < 8,
{
    ((word >> (8 * off)) & 0xff) as u8
}

/// `word` with the byte at offset `off` replaced by `val` and every other
/// byte unchanged.
pub open spec fn spliced(word: u64, off: u64, val: u8) -> u64
    recommends
        off < 8,
{
    (word & !(0xffu64 << (8 * off))) | ((val as u64) << (8 * off))
}

/// Rounds `addr` down to the start of its aligned machine word.
pub fn align_addr_to_word(addr: usize) -> (r: usize)
    ensures
        r == addr - (addr % 8),
{
    proof {
        assert(addr & !7usize == addr - (addr % 8)) by (bit_vector);
    }
    addr & !7usize
}

/// Distance from the start of the containing aligned word to `addr`.
pub fn byte_offset_in_word(addr: usize) -> (r: usize)
    ensures
        r == addr % 8,
        r < 8,
{
    proof {
        assert(addr & 7usize == addr % 8) by (bit_vector);
    }
    addr & 7usize
}

/// Splices `val` into `word` at byte offset `off`, returning the byte that was
/// there before together with the updated word.  This is the compute step of
/// the read-modify-write byte patch: the caller reads the aligned word from
/// the target, calls this, and writes the result back.
pub fn splice_byte(word: u64, off: usize, val: u8) -> (r: (u8, u64))
    requires
        off < 8,
    ensures
        r.0 == word_byte(word, off as u64),
        r.1 == spliced(word, off as u64, val),
{
    let shift: u64 = 8 * (off as u64);
    let orig: u8 = ((word >> shift) & 0xff) as u8;
    let updated: u64 = (word & !(0xffu64 << shift)) | ((val as u64) << shift);
    (orig, updated)
}

/// Splicing writes exactly the requested byte: the patched word holds `val` at
/// `off` and the original byte everywhere else.
pub proof fn lemma_splice_exact(word: u64, off: u64, val: u8)
    by (bit_vector)
    requires
        off < 8,
    ensures
        word_byte(spliced(word, off, val), off) == val,
        forall|i: u64| i < 8 && i != off ==> word_byte(spliced(word, off, val), i) == word_byte(
            word,
            i,
        ),
{
}

/// Round-trip patch/restore is exact: splicing any byte over `word` at `off`
/// and then splicing the saved original byte back yields `word` itself, so a
/// disarmed breakpoint leaves the target word byte-identical to its
/// un-instrumented form.
pub proof fn lemma_splice_roundtrip(word: u64, off: u64, val: u8)
    by (bit_vector)
    requires
        off < 8,
    ensures
        spliced(spliced(word, off, val), off, word_byte(word, off)) == word,
{
}

} // verus!
