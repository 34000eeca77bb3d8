//! Words as little-endian bytes.
use vstd::prelude::*;

verus! {

/// The word that four bytes stand for, the least significant byte first.
pub open spec fn le_word(b: Seq<u8>, at: int) -> nat {
    (b[at] as int + 0x100 * b[at + 1] as int + 0x1_0000 * b[at + 2] as int + 0x100_0000
        * b[at + 3] as int) as nat
}

/// Read the word at an index.
pub fn read_word(b: &[u8], at: usize) -> (w: u32)
    requires
        at + 4 <= b@.len(),
    ensures
        w == le_word(b@, at as int),
{
    let b0: u32 = b[at] as u32;
    let b1: u32 = b[at + 1] as u32;
    let b2: u32 = b[at + 2] as u32;
    let b3: u32 = b[at + 3] as u32;
    b0 + 0x100 * b1 + 0x1_0000 * b2 + 0x100_0000 * b3
}

/// Write a word at an index, and nothing else.
pub fn write_word(b: &mut [u8], at: usize, w: u32)
    requires
        at + 4 <= old(b)@.len(),
    ensures
        final(b)@.len() == old(b)@.len(),
        le_word(final(b)@, at as int) == w,
        forall|i: int|
            0 <= i < old(b)@.len() && !(at <= i < at + 4) ==> #[trigger] final(b)@[i] == old(b)@[i],
{
    b[at] = (w % 0x100) as u8;
    b[at + 1] = ((w / 0x100) % 0x100) as u8;
    b[at + 2] = ((w / 0x1_0000) % 0x100) as u8;
    b[at + 3] = (w / 0x100_0000) as u8;
}

} // verus!
