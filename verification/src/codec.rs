//! Pure, stateless transcoding between a 16-bit instruction word and its byte
//! constituents. Instruction words are big-endian: the high byte comes first in
//! memory.

use vstd::prelude::*;

verus! {

/// The high byte of a 16-bit instruction word.
pub open spec fn spec_high_byte(word: u16) -> u8 {
    (word >> 8) as u8
}

/// The low byte of a 16-bit instruction word.
pub open spec fn spec_low_byte(word: u16) -> u8 {
    (word & 0xff) as u8
}

/// Big-endian combination of a high byte and a low byte into one 16-bit word.
pub open spec fn spec_compose(high: u8, low: u8) -> u16 {
    ((high as u16) << 8) | (low as u16)
}

/// Composing the two bytes of a decomposed word restores the word: the codec
/// round-trips on every 16-bit value.
pub proof fn lemma_compose_decompose(word: u16)
    ensures
        spec_compose(spec_high_byte(word), spec_low_byte(word)) == word,
{
    assert((((((word >> 8) as u8) as u16) << 8) | (((word & 0xff) as u8) as u16)) == word)
        by (bit_vector);
}

/// The two bytes of a word are its quotient and remainder by 256.
pub proof fn lemma_decompose_arith(word: u16)
    ensures
        spec_high_byte(word) == word as int / 256,
        spec_low_byte(word) == word as int % 256,
{
    assert((word >> 8) as u8 == word as int / 256) by (bit_vector);
    assert((word & 0xff) as u8 == word as int % 256) by (bit_vector);
}

/// Composition equals the usual positional value of the two bytes.
pub proof fn lemma_compose_arith(high: u8, low: u8)
    ensures
        spec_compose(high, low) == high as int * 256 + low as int,
{
    assert((((high as u16) << 8) | (low as u16)) == high as int * 256 + low as int)
        by (bit_vector);
}

/// Decomposes a 16-bit word into two bytes: index 0 holds the first (high) 8 bits,
/// index 1 the last (low) 8 bits. Total: defined for all 65536 inputs.
pub fn decompose(code: u16) -> (r: (u8, u8))
    ensures
        r.0 == spec_high_byte(code),
        r.1 == spec_low_byte(code),
        r.0 == code as int / 256,
        r.1 == code as int % 256,
        spec_compose(r.0, r.1) == code,
{
    let left_code: u8 = (code >> 8) as u8;
    let right_code: u8 = (code & 0xff) as u8;
    proof {
        lemma_decompose_arith(code);
        lemma_compose_decompose(code);
    }
    (left_code, right_code)
}

/// Combines a high byte and a low byte into one big-endian 16-bit word.
pub fn compose(high: u8, low: u8) -> (word: u16)
    ensures
        word == spec_compose(high, low),
        word == high as int * 256 + low as int,
{
    let word: u16 = ((high as u16) << 8) | (low as u16);
    proof {
        lemma_compose_arith(high, low);
    }
    word
}

} // verus!
