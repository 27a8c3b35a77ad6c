//! Words, their arithmetic modulo 2^15, and the little-endian byte codec.

use vstd::prelude::*;

verus! {

/// Number of distinct word values, 2^15; arithmetic results are reduced by it.
pub const WORD_MODULUS: u16 = 32768;

/// Number of addressable memory cells.
pub const MEMORY_SIZE: usize = 32768;

/// Number of registers.
pub const REGISTER_COUNT: usize = 8;

/// Largest program image, in bytes, that fits into memory.
pub const MAX_PROGRAM_BYTES: usize = 65536;

/// The sum of two words, reduced modulo 2^15.
pub open spec fn sum_mod(a: u16, b: u16) -> u16 {
    ((a + b) % 32768) as u16
}

/// The product of two words, reduced modulo 2^15.
pub open spec fn product_mod(a: u16, b: u16) -> u16 {
    ((a * b) % 32768) as u16
}

/// The bitwise complement of a word, cut to its low 15 bits.
pub open spec fn complement(a: u16) -> u16 {
    (!a) & 0x7fff
}

/// The low eight bits of a word.
pub open spec fn low_byte(a: u16) -> u8 {
    (a % 256) as u8
}

/// The high eight bits of a word.
pub open spec fn high_byte(a: u16) -> u8 {
    (a / 256) as u8
}

/// The word whose low eight bits are `low` and whose high eight bits are `high`.
pub open spec fn word_of(low: u8, high: u8) -> u16 {
    (high * 256 + low) as u16
}

/// Adds two words modulo 2^15.
pub fn add_words(a: u16, b: u16) -> (r: u16)
    ensures
        r == sum_mod(a, b),
        r == (a + b) % 32768,
        r < 32768,
{
    let wide: u32 = a as u32 + b as u32;
    (wide % WORD_MODULUS as u32) as u16
}

/// Multiplies two words modulo 2^15.
pub fn multiply_words(a: u16, b: u16) -> (r: u16)
    ensures
        r == product_mod(a, b),
        r == (a * b) % 32768,
        r < 32768,
{
    assert(a * b <= 65535 * 65535) by (nonlinear_arith)
        requires
            a <= 65535,
            b <= 65535,
    ;
    let wide: u32 = a as u32 * b as u32;
    (wide % WORD_MODULUS as u32) as u16
}

/// Complements a word within 15 bits.
pub fn complement_word(a: u16) -> (r: u16)
    ensures
        r == complement(a),
        r < 32768,
        a < 32768 ==> r == 32767 - a,
{
    let r: u16 = (!a) & 0x7fff;
    assert(((!a) & 0x7fff) < 32768) by (bit_vector);
    assert(a < 32768 ==> ((!a) & 0x7fff) == 32767 - a) by (bit_vector);
    r
}

/// Complementing stays within 15 bits, and on a 15-bit word doing it twice
/// gives the word back.
pub proof fn lemma_complement_involution(a: u16)
    ensures
        complement(a) < 32768,
        a < 32768 ==> complement(complement(a)) == a,
{
    assert(((!a) & 0x7fff) < 32768) by (bit_vector);
    assert(a < 32768 ==> (!((!a) & 0x7fff)) & 0x7fff == a) by (bit_vector);
}

/// Bitwise and, or never leave the 15-bit range when both inputs are in it.
pub proof fn lemma_bitwise_range(a: u16, b: u16)
    requires
        a < 32768,
        b < 32768,
    ensures
        (a & b) < 32768,
        (a | b) < 32768,
{
    assert(a < 32768 && b < 32768 ==> (a & b) < 32768 && (a | b) < 32768) by (bit_vector);
}

/// The words that a byte sequence holds: each pair of bytes, low byte first,
/// is one word; a last byte without a partner counts as a low byte whose high
/// byte is zero.
pub open spec fn decode_words(bytes: Seq<u8>) -> Seq<u16> {
    Seq::new(
        ((bytes.len() + 1) / 2) as nat,
        |i: int|
            word_of(
                bytes[2 * i],
                if 2 * i + 1 < bytes.len() {
                    bytes[2 * i + 1]
                } else {
                    0u8
                },
            ),
    )
}

/// The bytes of a word sequence: for each word its low byte, then its high byte.
pub open spec fn encode_words(words: Seq<u16>) -> Seq<u8> {
    Seq::new(
        2 * words.len(),
        |i: int|
            if i % 2 == 0 {
                low_byte(words[i / 2])
            } else {
                high_byte(words[i / 2])
            },
    )
}

/// A word is put together again from its two bytes.
pub proof fn lemma_word_of_bytes(w: u16)
    ensures
        word_of(low_byte(w), high_byte(w)) == w,
{
}

/// Decoding the encoding of a word sequence gives the sequence back.
pub proof fn lemma_decode_encode(words: Seq<u16>)
    ensures
        decode_words(encode_words(words)) == words,
{
    let bytes = encode_words(words);
    assert(decode_words(bytes).len() == words.len());
    assert forall|i: int| 0 <= i < words.len() implies decode_words(bytes)[i] == words[i] by {
        assert(bytes[2 * i] == low_byte(words[i]));
        assert(bytes[2 * i + 1] == high_byte(words[i]));
        lemma_word_of_bytes(words[i]);
    }
    assert(decode_words(bytes) =~= words);
}

/// Joins a low and a high byte into a word.
pub fn join_bytes(low: u8, high: u8) -> (r: u16)
    ensures
        r == word_of(low, high),
{
    high as u16 * 256 + low as u16
}

/// Decodes bytes into words, two bytes per word, low byte first; a last
/// byte without a partner gives a word of its own.
pub fn from_binary(bytes: &[u8]) -> (words: Vec<u16>)
    ensures
        words@ == decode_words(bytes@),
{
    let mut words: Vec<u16> = Vec::new();
    let length: usize = bytes.len();
    let count: usize = length / 2 + length % 2;
    let mut i: usize = 0;
    while i < count
        invariant
            length == bytes@.len(),
            count == (length + 1) / 2,
            i <= count,
            words@ == decode_words(bytes@).take(i as int),
        decreases count - i,
    {
        let low: u8 = bytes[2 * i];
        let high: u8 = if 2 * i + 1 < length {
            bytes[2 * i + 1]
        } else {
            0
        };
        words.push(join_bytes(low, high));
        assert(words@ =~= decode_words(bytes@).take(i + 1));
        i += 1;
    }
    assert(decode_words(bytes@).take(i as int) =~= decode_words(bytes@));
    words
}

/// Encodes words as bytes, two per word, low byte first.
pub fn to_binary(words: &[u16]) -> (bytes: Vec<u8>)
    ensures
        bytes@ == encode_words(words@),
{
    let mut bytes: Vec<u8> = Vec::new();
    let mut i: usize = 0;
    while i < words.len()
        invariant
            i <= words@.len(),
            bytes@ == encode_words(words@.take(i as int)),
        decreases words@.len() - i,
    {
        let w: u16 = words[i];
        bytes.push((w % 256) as u8);
        bytes.push((w / 256) as u8);
        assert(bytes@ =~= encode_words(words@.take(i + 1)));
        i += 1;
    }
    assert(words@.take(i as int) =~= words@);
    bytes
}

} // verus!
