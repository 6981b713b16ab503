//! Little-endian wire codec for fixed-width samples.
//!
//! A sample travels through the library as the bit pattern of its numeric
//! representation, held in a `u64`. Every byte sequence of the right width is a
//! valid sample: no pattern is rejected or normalised.

use vstd::prelude::*;

verus! {

/// The numeric representation of a sample, fixed for the lifetime of a pipeline.
#[derive(Clone, Copy, Debug, PartialEq, Eq, Structural)]
pub enum SampleType {
    /// IEEE 754 binary32.
    Single,
    /// IEEE 754 binary64.
    Double,
}

impl SampleType {
    /// In-memory width of the representation, in bytes.
    pub open spec fn spec_width(self) -> usize {
        match self {
            SampleType::Single => 4,
            SampleType::Double => 8,
        }
    }

    /// In-memory width of the representation, in bytes.
    #[verifier::when_used_as_spec(spec_width)]
    pub fn width(self) -> (w: usize)
        ensures
            w == self.spec_width(),
    {
        match self {
            SampleType::Single => 4,
            SampleType::Double => 8,
        }
    }

    /// Whether `bits` is the pattern of some value of this representation.
    pub open spec fn representable(self, bits: u64) -> bool {
        (bits as nat) < pow256(self.spec_width() as nat)
    }
}

/// `256` to the power `n`: the number of distinct `n`-byte patterns.
pub open spec fn pow256(n: nat) -> nat
    decreases n,
{
    if n == 0 {
        1
    } else {
        256 * pow256((n - 1) as nat)
    }
}

/// The number that `bytes` encodes, least significant byte first.
pub open spec fn le_value(bytes: Seq<u8>) -> nat
    decreases bytes.len(),
{
    if bytes.len() == 0 {
        0
    } else {
        bytes[0] as nat + 256 * le_value(bytes.drop_first())
    }
}

/// The `width` low-order bytes of `value`, least significant byte first.
pub open spec fn le_bytes(value: nat, width: nat) -> Seq<u8>
    decreases width,
{
    if width == 0 {
        Seq::empty()
    } else {
        seq![(value % 256) as u8] + le_bytes(value / 256, (width - 1) as nat)
    }
}

/// Powers of 256 grow with the exponent.
pub proof fn lemma_pow256_monotonic(a: nat, b: nat)
    requires
        a <= b,
    ensures
        0 < pow256(a) <= pow256(b),
    decreases b,
{
    if b == 0 {
    } else if a == b {
        lemma_pow256_monotonic((a - 1) as nat, (b - 1) as nat);
    } else {
        lemma_pow256_monotonic(a, (b - 1) as nat);
    }
}

/// Eight bytes span exactly the range of a `u64`.
pub proof fn lemma_pow256_of_eight()
    ensures
        pow256(4) == 0x1_0000_0000,
        pow256(7) == 0x100_0000_0000_0000,
        pow256(8) == 0x1_0000_0000_0000_0000,
{
    reveal_with_fuel(pow256, 9);
}

/// Decoding an encoding returns the value, reduced to the encoded width; a
/// value that fits the width comes back unchanged.
pub proof fn lemma_decode_encode(value: nat, width: nat)
    ensures
        le_value(le_bytes(value, width)) == value % pow256(width),
        value < pow256(width) ==> le_value(le_bytes(value, width)) == value,
    decreases width,
{
    lemma_pow256_monotonic(0, width);
    if width == 0 {
    } else {
        let rest = (width - 1) as nat;
        let bytes = le_bytes(value, width);
        lemma_decode_encode(value / 256, rest);
        lemma_pow256_monotonic(0, rest);
        assert(bytes.drop_first() =~= le_bytes(value / 256, rest));
        assert(bytes[0] == (value % 256) as u8);
        let p = pow256(rest);
        vstd::arithmetic::div_mod::lemma_breakdown(value as int, 256, p as int);
    }
    if value < pow256(width) {
        vstd::arithmetic::div_mod::lemma_small_mod(value, pow256(width));
    }
}

/// The codec round trip: every pattern that a sample type can represent,
/// written to the wire and read back, is the same pattern, bit for bit. This
/// includes the patterns of subnormal numbers, infinities and every NaN.
pub proof fn lemma_round_trip(sample_type: SampleType, bits: u64)
    requires
        sample_type.representable(bits),
    ensures
        le_bytes(bits as nat, sample_type.spec_width() as nat).len() == sample_type.spec_width(),
        le_value(le_bytes(bits as nat, sample_type.spec_width() as nat)) == bits as nat,
{
    lemma_decode_encode(bits as nat, sample_type.spec_width() as nat);
    reveal_with_fuel(le_bytes, 9);
}

/// Every record of a sample type's width decodes to a pattern that the type
/// can represent, and encoding that pattern gives the record back.
pub proof fn lemma_record_round_trip(sample_type: SampleType, record: Seq<u8>)
    requires
        record.len() == sample_type.spec_width(),
    ensures
        le_value(record) < pow256(sample_type.spec_width() as nat),
        le_bytes(le_value(record), sample_type.spec_width() as nat) == record,
{
    lemma_le_value_bound(record);
    lemma_encode_decode(record);
}

/// An encoding of `n` bytes is below `256^n`.
pub proof fn lemma_le_value_bound(bytes: Seq<u8>)
    ensures
        le_value(bytes) < pow256(bytes.len()),
    decreases bytes.len(),
{
    if bytes.len() > 0 {
        lemma_le_value_bound(bytes.drop_first());
    }
}

/// Encoding a decoding, at the width that was decoded, returns the bytes.
pub proof fn lemma_encode_decode(bytes: Seq<u8>)
    ensures
        le_bytes(le_value(bytes), bytes.len()) == bytes,
    decreases bytes.len(),
{
    if bytes.len() == 0 {
        assert(le_bytes(le_value(bytes), 0) =~= bytes);
    } else {
        let tail = bytes.drop_first();
        let first = bytes[0] as nat;
        let value = le_value(bytes);
        lemma_encode_decode(tail);
        assert(value == first + 256 * le_value(tail));
        assert(value % 256 == first && value / 256 == le_value(tail)) by (nonlinear_arith)
            requires
                value == first + 256 * le_value(tail),
                first < 256,
        ;
        assert(le_bytes(value, bytes.len()) =~= bytes);
    }
}

/// Reinterprets `bytes`, least significant byte first, as a sample's bit pattern.
///
/// Every input is accepted; at most eight bytes fit the pattern.
pub fn decode(bytes: &[u8]) -> (bits: u64)
    requires
        bytes@.len() <= 8,
    ensures
        bits as nat == le_value(bytes@),
        (bits as nat) < pow256(bytes@.len()),
{
    let mut bits: u64 = 0;
    let mut i: usize = bytes.len();
    proof {
        lemma_pow256_of_eight();
        assert(bytes@.skip(i as int) =~= Seq::<u8>::empty());
    }
    while i > 0
        invariant
            i <= bytes@.len() <= 8,
            bits as nat == le_value(bytes@.skip(i as int)),
            (bits as nat) < pow256((bytes@.len() - i) as nat),
        decreases i,
    {
        i = i - 1;
        proof {
            let rest = bytes@.skip(i as int);
            assert(rest.drop_first() =~= bytes@.skip(i + 1));
            assert(rest[0] == bytes@[i as int]);
            let left = (bytes@.len() - i) as nat;
            lemma_pow256_monotonic((left - 1) as nat, 7);
            lemma_pow256_of_eight();
            assert(pow256(left) == 256 * pow256((left - 1) as nat));
        }
        bits = bits * 256 + bytes[i] as u64;
    }
    proof {
        assert(bytes@.skip(0) =~= bytes@);
    }
    bits
}

/// Writes the `width` low-order bytes of `bits`, least significant byte first.
///
/// The inverse of [`decode`] for every pattern that fits `width` bytes.
pub fn encode(bits: u64, width: usize) -> (bytes: Vec<u8>)
    ensures
        bytes@ == le_bytes(bits as nat, width as nat),
        bytes@.len() == width,
        (bits as nat) < pow256(width as nat) ==> le_value(bytes@) == bits as nat,
{
    let mut bytes: Vec<u8> = Vec::new();
    let mut rest: u64 = bits;
    let mut i: usize = 0;
    proof {
        assert(le_bytes(bits as nat, 0) =~= Seq::<u8>::empty());
    }
    while i < width
        invariant
            i <= width,
            bytes@.len() == i,
            le_bytes(bits as nat, width as nat) =~= bytes@ + le_bytes(
                rest as nat,
                (width - i) as nat,
            ),
        decreases width - i,
    {
        bytes.push((rest % 256) as u8);
        rest = rest / 256;
        i = i + 1;
    }
    proof {
        assert(le_bytes(rest as nat, 0) =~= Seq::<u8>::empty());
        lemma_decode_encode(bits as nat, width as nat);
    }
    bytes
}

} // verus!
