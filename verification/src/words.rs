//! The single point of byte-level value representation in the library.
//!
//! Every field access ultimately reads or writes one 32-bit word at a byte
//! offset. The representation is fixed here: a word occupies four
//! consecutive bytes, least significant byte first. Floats and integers are
//! carried as their 32-bit patterns, so a round trip preserves them bit for
//! bit.

use vstd::prelude::*;

verus! {

/// The low byte of a word.
pub open spec fn byte0(v: u32) -> u8 {
    (v & 0xff) as u8
}

/// The second byte of a word.
pub open spec fn byte1(v: u32) -> u8 {
    ((v >> 8) & 0xff) as u8
}

/// The third byte of a word.
pub open spec fn byte2(v: u32) -> u8 {
    ((v >> 16) & 0xff) as u8
}

/// The high byte of a word.
pub open spec fn byte3(v: u32) -> u8 {
    ((v >> 24) & 0xff) as u8
}

/// The word stored little-endian at byte offset `a` of `b`.
pub open spec fn word_at(b: Seq<u8>, a: int) -> u32
    recommends
        0 <= a,
        a + 4 <= b.len(),
{
    (b[a] as u32) | ((b[a + 1] as u32) << 8) | ((b[a + 2] as u32) << 16) | ((b[a + 3] as u32)
        << 24)
}

/// `b` with the word at byte offset `a` replaced by `v`, little-endian.
pub open spec fn with_word(b: Seq<u8>, a: int, v: u32) -> Seq<u8>
    recommends
        0 <= a,
        a + 4 <= b.len(),
{
    b.update(a, byte0(v)).update(a + 1, byte1(v)).update(a + 2, byte2(v)).update(a + 3, byte3(v))
}

/// Reassembling the four bytes of a word gives the word back.
pub proof fn lemma_word_bytes(v: u32)
    ensures
        (byte0(v) as u32) | ((byte1(v) as u32) << 8) | ((byte2(v) as u32) << 16) | ((byte3(
            v,
        ) as u32) << 24) == v,
{
    assert((((v & 0xff) as u8) as u32) | (((((v >> 8) & 0xff) as u8) as u32) << 8) | (((((v >> 16)
        & 0xff) as u8) as u32) << 16) | (((((v >> 24) & 0xff) as u8) as u32) << 24) == v)
        by (bit_vector);
}

/// Writing a word and reading it back at the same offset returns the word
/// unchanged.
pub proof fn lemma_word_round_trip(b: Seq<u8>, a: int, v: u32)
    requires
        0 <= a,
        a + 4 <= b.len(),
    ensures
        word_at(with_word(b, a, v), a) == v,
{
    lemma_word_bytes(v);
}

/// Writing a word changes no byte outside its four target positions, and
/// keeps the buffer length.
pub proof fn lemma_with_word_frame(b: Seq<u8>, a: int, v: u32)
    requires
        0 <= a,
        a + 4 <= b.len(),
    ensures
        with_word(b, a, v).len() == b.len(),
        forall|i: int| 0 <= i < b.len() && !(a <= i < a + 4) ==> with_word(b, a, v)[i] == b[i],
{
}

/// Words at disjoint offsets do not disturb each other: reading at `a2`
/// after writing at `a` sees the old bytes whenever the two words do not
/// overlap.
pub proof fn lemma_word_disjoint(b: Seq<u8>, a: int, a2: int, v: u32)
    requires
        0 <= a,
        a + 4 <= b.len(),
        0 <= a2,
        a2 + 4 <= b.len(),
        a2 + 4 <= a || a + 4 <= a2,
    ensures
        word_at(with_word(b, a, v), a2) == word_at(b, a2),
{
}

/// Reads the word stored little-endian at byte offset `addr`.
pub fn read_word(bytes: &Vec<u8>, addr: usize) -> (r: u32)
    requires
        addr + 4 <= bytes@.len(),
    ensures
        r == word_at(bytes@, addr as int),
{
    let _n: usize = bytes.len();
    let b0 = bytes[addr] as u32;
    let b1 = bytes[addr + 1] as u32;
    let b2 = bytes[addr + 2] as u32;
    let b3 = bytes[addr + 3] as u32;
    b0 | (b1 << 8) | (b2 << 16) | (b3 << 24)
}

/// Stores `v` little-endian at byte offset `addr`.
pub fn write_word(bytes: &mut Vec<u8>, addr: usize, v: u32)
    requires
        addr + 4 <= old(bytes)@.len(),
    ensures
        final(bytes)@ == with_word(old(bytes)@, addr as int, v),
{
    let _n: usize = bytes.len();
    proof {
        assert(v & 0xff < 256 && (v >> 8) & 0xff < 256 && (v >> 16) & 0xff < 256 && (v >> 24)
            & 0xff < 256) by (bit_vector);
    }
    let b0: u8 = (v & 0xff) as u8;
    let b1: u8 = ((v >> 8) & 0xff) as u8;
    let b2: u8 = ((v >> 16) & 0xff) as u8;
    let b3: u8 = ((v >> 24) & 0xff) as u8;
    bytes.set(addr, b0);
    bytes.set(addr + 1, b1);
    bytes.set(addr + 2, b2);
    bytes.set(addr + 3, b3);
}

} // verus!
