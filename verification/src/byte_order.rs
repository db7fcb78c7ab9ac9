//! Byte order of the 16-bit words of a header.
//!
//! The CCSDS standard transmits every word most significant byte first.
//! Some deployments do not conform and send the least significant byte
//! first, so the order is a parameter of every conversion between bytes and
//! words. The conversions themselves are done by the `byteorder` crate.

use byteorder::{BigEndian, ByteOrder, LittleEndian};
use vstd::prelude::*;

verus! {

/// The order in which the two bytes of a word appear on the wire.
#[derive(Debug, PartialEq, Eq, Copy, Clone, Structural)]
pub enum Endianness {
    /// Most significant byte first: the order the standard prescribes.
    Big,
    /// Least significant byte first.
    Little,
}

impl Endianness {
    /// The order selected by a "little endian header" switch.
    pub open spec fn spec_of_little_endian(little_endian: bool) -> Endianness {
        if little_endian {
            Endianness::Little
        } else {
            Endianness::Big
        }
    }

    /// The order selected by a "little endian header" switch.
    #[verifier::when_used_as_spec(spec_of_little_endian)]
    pub fn of_little_endian(little_endian: bool) -> (order: Endianness)
        ensures
            order == Endianness::spec_of_little_endian(little_endian),
    {
        if little_endian {
            Endianness::Little
        } else {
            Endianness::Big
        }
    }
}

/// The word that the bytes `first`, `second` denote, in wire order.
pub open spec fn word_of_bytes(first: u8, second: u8, order: Endianness) -> u16 {
    match order {
        Endianness::Big => (first as int * 256 + second as int) as u16,
        Endianness::Little => (second as int * 256 + first as int) as u16,
    }
}

/// The two bytes, in wire order, that denote `word`.
pub open spec fn bytes_of_word(word: u16, order: Endianness) -> (u8, u8) {
    match order {
        Endianness::Big => ((word / 256) as u8, (word % 256) as u8),
        Endianness::Little => ((word % 256) as u8, (word / 256) as u8),
    }
}

/// Writing a word and reading it back in the same order gives the word.
pub proof fn lemma_word_round_trip(word: u16, order: Endianness)
    ensures
        word_of_bytes(bytes_of_word(word, order).0, bytes_of_word(word, order).1, order) == word,
{
}

/// Reading two bytes and writing the word back in the same order gives the
/// two bytes.
pub proof fn lemma_bytes_round_trip(first: u8, second: u8, order: Endianness)
    ensures
        bytes_of_word(word_of_bytes(first, second, order), order) == (first, second),
{
}

/// `byteorder::BigEndian::read_u16` on a two-byte buffer: the first byte is
/// the high half of the result and the second byte the low half.
#[verifier::external_body]
fn read_u16_big_endian(pair: [u8; 2]) -> (word: u16)
    ensures
        word == pair[0] as int * 256 + pair[1] as int,
{
    BigEndian::read_u16(&pair)
}

/// `byteorder::LittleEndian::read_u16` on a two-byte buffer: the first byte
/// is the low half of the result and the second byte the high half.
#[verifier::external_body]
fn read_u16_little_endian(pair: [u8; 2]) -> (word: u16)
    ensures
        word == pair[1] as int * 256 + pair[0] as int,
{
    LittleEndian::read_u16(&pair)
}

/// `byteorder::BigEndian::write_u16` into a two-byte buffer: afterwards the
/// buffer holds the high half of `word`, then its low half.
#[verifier::external_body]
fn write_u16_big_endian(word: u16) -> (pair: [u8; 2])
    ensures
        pair[0] == word / 256,
        pair[1] == word % 256,
{
    let mut pair = [0u8; 2];
    BigEndian::write_u16(&mut pair, word);
    pair
}

/// `byteorder::LittleEndian::write_u16` into a two-byte buffer: afterwards
/// the buffer holds the low half of `word`, then its high half.
#[verifier::external_body]
fn write_u16_little_endian(word: u16) -> (pair: [u8; 2])
    ensures
        pair[0] == word % 256,
        pair[1] == word / 256,
{
    let mut pair = [0u8; 2];
    LittleEndian::write_u16(&mut pair, word);
    pair
}

/// Reads the word that two bytes denote in the given order.
pub fn read_word(first: u8, second: u8, order: Endianness) -> (word: u16)
    ensures
        word == word_of_bytes(first, second, order),
{
    match order {
        Endianness::Big => read_u16_big_endian([first, second]),
        Endianness::Little => read_u16_little_endian([first, second]),
    }
}

/// Gives the two bytes that denote `word` in the given order.
pub fn write_word(word: u16, order: Endianness) -> (pair: [u8; 2])
    ensures
        (pair[0], pair[1]) == bytes_of_word(word, order),
{
    match order {
        Endianness::Big => write_u16_big_endian(word),
        Endianness::Little => write_u16_little_endian(word),
    }
}

} // verus!
