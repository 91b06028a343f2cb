//! The program loader: from the bytes of a program file to the words of an
//! instruction stream.

use vstd::prelude::*;

verus! {

/// The signed 32-bit word whose big-endian bytes are `b0`, `b1`, `b2`, `b3`.
pub open spec fn be_word(b0: u8, b1: u8, b2: u8, b3: u8) -> i32 {
    let unsigned = b0 * 0x100_0000 + b1 * 0x1_0000 + b2 * 0x100 + b3;
    if unsigned >= 0x8000_0000 {
        (unsigned - 0x1_0000_0000) as i32
    } else {
        unsigned as i32
    }
}

/// The words that `bytes` hold: each group of four bytes, in order, is one
/// big-endian word. One to three bytes left over at the end are not a word and
/// are dropped.
pub open spec fn words_of(bytes: Seq<u8>) -> Seq<i32> {
    Seq::new(
        bytes.len() / 4,
        |i: int| be_word(bytes[4 * i], bytes[4 * i + 1], bytes[4 * i + 2], bytes[4 * i + 3]),
    )
}

/// Puts four big-endian bytes together into a word.
fn word_from_be(b0: u8, b1: u8, b2: u8, b3: u8) -> (word: i32)
    ensures
        word == be_word(b0, b1, b2, b3),
{
    let n: u32 = ((b0 as u32) << 24) | ((b1 as u32) << 16) | ((b2 as u32) << 8) | (b3 as u32);
    assert(n == b0 * 0x100_0000 + b1 * 0x1_0000 + b2 * 0x100 + b3) by (bit_vector)
        requires
            n == ((b0 as u32) << 24) | ((b1 as u32) << 16) | ((b2 as u32) << 8) | (b3 as u32),
    ;
    let word = n as i32;
    assert(word == if n >= 0x8000_0000u32 {
        n - 0x1_0000_0000
    } else {
        n as int
    }) by (bit_vector)
        requires
            word == n as i32,
    ;
    word
}

/// Decodes the bytes of a program file into an instruction stream.
///
/// Nothing is checked beyond the grouping into words: whether the words make
/// up a program shows only when they are executed.
pub fn words_from_bytes(bytes: &[u8]) -> (words: Vec<i32>)
    ensures
        words@ == words_of(bytes@),
{
    let total = bytes.len();
    let count = total / 4;
    let mut words: Vec<i32> = Vec::new();
    let mut i: usize = 0;
    while i < count
        invariant
            total == bytes@.len(),
            count == total / 4,
            i <= count,
            words@ == words_of(bytes@).subrange(0, i as int),
        decreases count - i,
    {
        let j = i * 4;
        let word = word_from_be(bytes[j], bytes[j + 1], bytes[j + 2], bytes[j + 3]);
        words.push(word);
        assert(words@ =~= words_of(bytes@).subrange(0, i + 1));
        i += 1;
    }
    assert(words@ =~= words_of(bytes@));
    words
}

} // verus!
