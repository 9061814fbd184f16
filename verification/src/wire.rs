//! Big-endian 16-bit words.
use vstd::prelude::*;

verus! {

/// The word whose most significant byte is `high` and whose least significant
/// byte is `low`.
pub open spec fn word(high: u8, low: u8) -> u16 {
    (high * 256 + low) as u16
}

/// The two bytes of `x`, the most significant one first.
pub open spec fn word_bytes(x: u16) -> Seq<u8> {
    seq![(x / 256) as u8, (x % 256) as u8]
}

/// Reads a big-endian word.
pub fn read_word(high: u8, low: u8) -> (x: u16)
    ensures
        x == word(high, low),
        word_bytes(x) == seq![high, low],
{
    let x: u16 = high as u16 * 256 + low as u16;
    assert((x / 256) as u8 == high && (x % 256) as u8 == low);
    x
}

/// The most significant byte of a word.
pub fn high_byte(x: u16) -> (b: u8)
    ensures
        b == word_bytes(x)[0],
{
    (x / 256) as u8
}

/// The least significant byte of a word.
pub fn low_byte(x: u16) -> (b: u8)
    ensures
        b == word_bytes(x)[1],
{
    (x % 256) as u8
}

/// Reading back the two bytes of a word gives the word.
pub proof fn law_word_round_trip(x: u16)
    ensures
        word(word_bytes(x)[0], word_bytes(x)[1]) == x,
{
}

/// A word is its first byte times 256 and its second byte.
pub proof fn law_words_are_big_endian(high: u8, low: u8, x: u16)
    ensures
        word(high, low) == 256 * high + low,
        word_bytes(x).len() == 2,
        256 * word_bytes(x)[0] + word_bytes(x)[1] == x,
{
}

} // verus!
