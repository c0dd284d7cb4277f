//! Nibble arithmetic: splitting an instruction word into its four hex digits
//! and assembling operand fields back from them.

use vstd::prelude::*;

verus! {

/// Whether `n` is a single hex digit.
pub open spec fn is_nibble(n: u8) -> bool {
    n < 16
}

/// The word whose hex digits, most significant first, are `n1 n2 n3 n4`. When an
/// argument exceeds one hex digit its surplus bits overlay the digit above it and
/// whatever reaches past bit 15 is dropped.
pub open spec fn spec_nibbles_to_u16(n1: u8, n2: u8, n3: u8, n4: u8) -> u16 {
    (n1 as u16) << 12 | (n2 as u16) << 8 | (n3 as u16) << 4 | (n4 as u16)
}

/// The byte whose hex digits are `n1 n2`. Bits of `n1` that reach past bit 7 are
/// dropped; surplus bits of `n2` overlay `n1`.
pub open spec fn spec_nibbles_to_u8(n1: u8, n2: u8) -> u8 {
    (((n1 as u16) << 4 | (n2 as u16)) & 0xff) as u8
}

/// On hex digits, assembling a word is positional notation in base 16.
pub proof fn lemma_nibbles_to_u16_is_positional(n1: u8, n2: u8, n3: u8, n4: u8)
    requires
        is_nibble(n1),
        is_nibble(n2),
        is_nibble(n3),
        is_nibble(n4),
    ensures
        spec_nibbles_to_u16(n1, n2, n3, n4) == n1 * 4096 + n2 * 256 + n3 * 16 + n4,
{
    assert((n1 as u16) << 12 | (n2 as u16) << 8 | (n3 as u16) << 4 | (n4 as u16) == n1 * 4096 + n2
        * 256 + n3 * 16 + n4) by (bit_vector)
        requires
            n1 < 16,
            n2 < 16,
            n3 < 16,
            n4 < 16,
    ;
}

/// On hex digits, assembling a byte is positional notation in base 16.
pub proof fn lemma_nibbles_to_u8_is_positional(n1: u8, n2: u8)
    requires
        is_nibble(n1),
        is_nibble(n2),
    ensures
        spec_nibbles_to_u8(n1, n2) == n1 * 16 + n2,
{
    assert((((n1 as u16) << 4 | (n2 as u16)) & 0xff) as u8 == n1 * 16 + n2) by (bit_vector)
        requires
            n1 < 16,
            n2 < 16,
    ;
}

/// Splits a word into its four hex digits, most significant first.
pub fn u16_to_nibbles(i: u16) -> (n: (u8, u8, u8, u8))
    ensures
        n.0 == i / 4096,
        n.1 == (i / 256) % 16,
        n.2 == (i / 16) % 16,
        n.3 == i % 16,
        is_nibble(n.0) && is_nibble(n.1) && is_nibble(n.2) && is_nibble(n.3),
        i == n.0 * 4096 + n.1 * 256 + n.2 * 16 + n.3,
{
    assert((i & 0xf000) >> 12 == i / 4096) by (bit_vector);
    assert((i & 0x0f00) >> 8 == (i / 256) % 16) by (bit_vector);
    assert((i & 0x00f0) >> 4 == (i / 16) % 16) by (bit_vector);
    assert(i & 0x000f == i % 16) by (bit_vector);
    assert(i == (i / 4096) * 4096 + ((i / 256) % 16) * 256 + ((i / 16) % 16) * 16 + i % 16)
        by (bit_vector);
    assert(i / 4096 < 16) by (bit_vector);
    (
        ((i & 0xf000) >> 12) as u8,
        ((i & 0x0f00) >> 8) as u8,
        ((i & 0x00f0) >> 4) as u8,
        (i & 0x000f) as u8,
    )
}

/// Assembles a word from four hex digits, most significant first.
pub fn nibbles_to_u16(n1: u8, n2: u8, n3: u8, n4: u8) -> (r: u16)
    ensures
        r == spec_nibbles_to_u16(n1, n2, n3, n4),
        is_nibble(n1) && is_nibble(n2) && is_nibble(n3) && is_nibble(n4) ==> r == n1 * 4096 + n2
            * 256 + n3 * 16 + n4,
{
    proof {
        if is_nibble(n1) && is_nibble(n2) && is_nibble(n3) && is_nibble(n4) {
            lemma_nibbles_to_u16_is_positional(n1, n2, n3, n4);
        }
    }
    (n1 as u16) << 12 | (n2 as u16) << 8 | (n3 as u16) << 4 | (n4 as u16)
}

/// Assembles a byte from two hex digits, the high one first.
pub fn nibbles_to_u8(n1: u8, n2: u8) -> (r: u8)
    ensures
        r == spec_nibbles_to_u8(n1, n2),
        is_nibble(n1) && is_nibble(n2) ==> r == n1 * 16 + n2,
{
    proof {
        if is_nibble(n1) && is_nibble(n2) {
            lemma_nibbles_to_u8_is_positional(n1, n2);
        }
    }
    let wide: u16 = (n1 as u16) << 4 | (n2 as u16);
    (wide & 0xFF) as u8
}

} // verus!
