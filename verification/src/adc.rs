//! Framing for the analog-to-digital converter on the serial peripheral bus.
//!
//! One conversion is a three-byte exchange. The converter answers with a
//! 24-bit word, most significant byte first, whose low twelve bits are the
//! reading. A reading goes on the wire as one four-byte record in the wire
//! codec's format, least significant byte first.

use vstd::prelude::*;
use crate::codec::{le_bytes, le_value, lemma_decode_encode, lemma_pow256_of_eight};

verus! {

/// First command byte: the start bit.
pub const START: u8 = 0b0000_0001;

/// Second command byte: the channel configuration.
pub const CONFIG: u8 = 0b0010_0000;

/// One more than the largest reading: the converter has twelve bits.
pub const FULL_SCALE: u32 = 4096;

/// The 24-bit word that a response carries, most significant byte first.
pub open spec fn response_word(response: Seq<u8>) -> nat {
    (response[0] as nat) * 65536 + (response[1] as nat) * 256 + response[2] as nat
}

/// The reading that a response carries: the low twelve bits of its word.
pub open spec fn reading_of(response: Seq<u8>) -> nat {
    response_word(response) % 4096
}

/// The width of a reading's record on the wire, in bytes.
pub const RECORD_WIDTH: usize = 4;

/// The three bytes to clock out for one conversion.
pub fn command() -> (frame: [u8; 3])
    ensures
        frame@ == seq![START, CONFIG, 0u8],
{
    [START, CONFIG, 0]
}

/// Extracts the reading from the three bytes that the converter clocked in.
pub fn reading(response: &[u8; 3]) -> (value: u32)
    ensures
        value == reading_of(response@),
        value < FULL_SCALE,
        value == (response@[1] % 16) * 256 + response@[2],
{
    let word: u32 = (response[0] as u32) * 65536 + (response[1] as u32) * 256 + (
    response[2] as u32);
    let value: u32 = word & 0xFFF;
    assert(value == word % 4096) by (bit_vector)
        requires
            value == word & 0xFFF,
    ;
    value
}

/// Lays a reading out as one record for the wire: four bytes, least
/// significant byte first, which the wire codec decodes to the same reading.
pub fn record(reading: u32) -> (bytes: [u8; 4])
    ensures
        bytes@ == le_bytes(reading as nat, RECORD_WIDTH as nat),
        le_value(bytes@) == reading as nat,
{
    let bytes: [u8; 4] = [
        (reading % 256) as u8,
        (reading / 0x100 % 256) as u8,
        (reading / 0x1_0000 % 256) as u8,
        (reading / 0x100_0000) as u8,
    ];
    proof {
        reveal_with_fuel(le_bytes, 5);
        assert(bytes@ =~= le_bytes(reading as nat, 4));
        lemma_pow256_of_eight();
        lemma_decode_encode(reading as nat, 4);
    }
    bytes
}

} // verus!
