//! Word-granular byte patching.
//!
//! The trace interface reads and writes the target's memory one aligned
//! machine word at a time.  Installing or removing a one-byte trap
//! instruction therefore takes a read-modify-write: fetch the aligned word
//! that contains the address, swap one byte inside it, and write the word
//! back.  The arithmetic here is the part that must not be wrong, so it is
//! stated and proved exactly.

use vstd::prelude::*;

verus! {

/// Bytes in a machine word of the traced target.
pub const WORD_SIZE: usize = 8;

/// Bit position of byte `off` inside a word.
pub open spec fn shift_of(off: usize) -> u64 {
    (8 * off) as u64
}

/// The byte held at byte position `off` of `word`.
pub open spec fn byte_at(word: u64, off: usize) -> u8 {
    (word >> shift_of(off)) as u8
}

/// `word` with the byte at position `off` replaced by `val`.
pub open spec fn with_byte(word: u64, off: usize, val: u8) -> u64 {
    (word & !(0xffu64 << shift_of(off))) | ((val as u64) << shift_of(off))
}

/// Masks `addr` down to the start of the machine word containing it.
pub fn align_addr_to_word(addr: usize) -> (r: usize)
    ensures
        r == addr - addr % 8,
        r <= addr,
        addr - r < 8,
{
    proof {
        assert((addr & !7usize) % 8 == 0 && (addr & !7usize) + (addr % 8) == addr)
            by (bit_vector);
    }
    addr & !7usize
}

/// Reads the byte at position `off` out of `word`.
pub fn extract_byte(word: u64, off: usize) -> (r: u8)
    requires
        off < WORD_SIZE,
    ensures
        r == byte_at(word, off),
{
    let shift: u64 = 8 * (off as u64);
    #[verifier::truncate] ((word >> shift) as u8)
}

/// Replaces the byte at position `off` of `word` with `val`.
pub fn replace_byte(word: u64, off: usize, val: u8) -> (r: u64)
    requires
        off < WORD_SIZE,
    ensures
        r == with_byte(word, off, val),
{
    let shift: u64 = 8 * (off as u64);
    (word & !(0xffu64 << shift)) | ((val as u64) << shift)
}

proof fn lemma_bv_set_get(w: u64, v: u8, s: u64)
    requires
        s <= 56,
    ensures
        ((((w & !(0xffu64 << s)) | ((v as u64) << s)) >> s) as u8) == v,
{
    assert(s <= 56 ==> ((((w & !(0xffu64 << s)) | ((v as u64) << s)) >> s) as u8) == v)
        by (bit_vector);
}

proof fn lemma_bv_other_byte(w: u64, v: u8, s1: u64, s2: u64)
    requires
        s1 <= 56,
        s2 <= 56,
        s1 != s2,
        s1 % 8 == 0,
        s2 % 8 == 0,
    ensures
        ((((w & !(0xffu64 << s1)) | ((v as u64) << s1)) >> s2) as u8) == ((w >> s2) as u8),
{
    assert(s1 <= 56 && s2 <= 56 && s1 != s2 && s1 % 8 == 0 && s2 % 8 == 0 ==> ((((w & !(0xffu64
        << s1)) | ((v as u64) << s1)) >> s2) as u8) == ((w >> s2) as u8)) by (bit_vector);
}

proof fn lemma_bv_round_trip(w: u64, v: u8, s: u64)
    requires
        s < 64,
    ensures
        (((w & !(0xffu64 << s)) | ((v as u64) << s)) & !(0xffu64 << s)) | ((((w >> s) as u8)
            as u64) << s) == w,
{
    assert(s < 64 ==> ((((w & !(0xffu64 << s)) | ((v as u64) << s)) & !(0xffu64 << s)) | ((((w
        >> s) as u8) as u64) << s)) == w) by (bit_vector);
}

/// The byte written by `with_byte` is the byte read back at the same
/// position, and every other byte of the word is untouched.
pub proof fn lemma_with_byte_at(word: u64, off: usize, val: u8)
    requires
        off < WORD_SIZE,
    ensures
        byte_at(with_byte(word, off, val), off) == val,
        forall|o: usize| o < WORD_SIZE && o != off
            ==> byte_at(with_byte(word, off, val), o) == byte_at(word, o),
{
    lemma_bv_set_get(word, val, shift_of(off));
    assert forall|o: usize| o < WORD_SIZE && o != off implies byte_at(
        with_byte(word, off, val),
        o,
    ) == byte_at(word, o) by {
        lemma_bv_other_byte(word, val, shift_of(off), shift_of(o));
    }
}

/// Patching a byte in and then patching the byte that was there before back
/// in restores the original word: installing a trap and later restoring the
/// saved byte leaves the target's instruction stream as it was.
pub proof fn lemma_patch_round_trip(word: u64, off: usize, val: u8)
    requires
        off < WORD_SIZE,
    ensures
        with_byte(with_byte(word, off, val), off, byte_at(word, off)) == word,
{
    lemma_bv_round_trip(word, val, shift_of(off));
}

} // verus!
