//! Byte strings in the node's binary encoding, and the parts of that encoding
//! that `parity-scale-codec` computes for the library.

use vstd::prelude::*;
use parity_scale_codec::{Compact, Decode, Encode};

verus! {

/// Bytes that are already in the node's binary encoding.
#[derive(Debug, PartialEq, Eq)]
pub struct Encoded(pub Vec<u8>);

impl View for Encoded {
    type V = Seq<u8>;

    open spec fn view(&self) -> Seq<u8> {
        self.0@
    }
}

impl Clone for Encoded {
    fn clone(&self) -> (copy: Self)
        ensures
            copy@ == self@,
    {
        Encoded(self.0.clone())
    }
}

/// The bytes of `value`, least significant first, `width` of them.
pub open spec fn little_endian(value: nat, width: nat) -> Seq<u8>
    decreases width,
{
    if width == 0 {
        Seq::empty()
    } else {
        seq![(value % 256) as u8] + little_endian(value / 256, (width - 1) as nat)
    }
}

/// The least number of bytes that hold `value`, and one for zero.
pub open spec fn byte_width(value: nat) -> nat
    decreases value,
{
    if value < 256 {
        1
    } else {
        1 + byte_width(value / 256)
    }
}

/// The compact encoding of a number. Below 2^6, 2^14 and 2^30 it is one, two
/// or four bytes that hold the number shifted left by two, with the mode 0, 1
/// or 2 in the low bits. From 2^30 on it is a byte that holds the mode 3 and,
/// shifted left by two, the count of bytes beyond four, followed by the
/// bytes of the number, as few as hold it. Bytes are least significant first.
pub open spec fn compact(value: nat) -> Seq<u8> {
    if value < 0x40 {
        little_endian(value * 4, 1)
    } else if value < 0x4000 {
        little_endian(value * 4 + 1, 2)
    } else if value < 0x4000_0000 {
        little_endian(value * 4 + 2, 4)
    } else {
        seq![(3 + (byte_width(value) - 4) * 4) as u8] + little_endian(value, byte_width(value))
    }
}

/// The compact encoding of a 32-bit number.
pub open spec fn compact_u32(value: u32) -> Seq<u8> {
    compact(value as nat)
}

/// The encoding of a byte string: the compact encoding of its length, then
/// the bytes.
pub open spec fn length_prefixed(data: Seq<u8>) -> Seq<u8>
    recommends
        data.len() <= u32::MAX,
{
    compact_u32(data.len() as u32) + data
}

/// Calls `Compact::<u32>::encode` of `parity-scale-codec`: the result is the
/// compact encoding of `value`.
#[verifier::external_body]
pub(crate) fn encode_compact_u32(value: u32) -> (bytes: Vec<u8>)
    ensures
        bytes@ == compact_u32(value),
{
    Compact(value).encode()
}

/// Calls `Compact::<u64>::encode` of `parity-scale-codec`: the result is the
/// compact encoding of `value`.
#[verifier::external_body]
pub(crate) fn encode_compact_u64(value: u64) -> (bytes: Vec<u8>)
    ensures
        bytes@ == compact(value as nat),
{
    Compact(value).encode()
}

/// Calls `Compact::<u128>::encode` of `parity-scale-codec`: the result is the
/// compact encoding of `value`.
#[verifier::external_body]
pub(crate) fn encode_compact_u128(value: u128) -> (bytes: Vec<u8>)
    ensures
        bytes@ == compact(value as nat),
{
    Compact(value).encode()
}

/// Calls `<u128 as Encode>::encode` of `parity-scale-codec`: the result is
/// the sixteen bytes of `value`, least significant first.
#[verifier::external_body]
pub(crate) fn encode_u128(value: u128) -> (bytes: Vec<u8>)
    ensures
        bytes@ == little_endian(value as nat, 16),
{
    value.encode()
}

/// Calls `<[u8]>::encode` of `parity-scale-codec`: the result is the compact
/// encoding of the length followed by the bytes. The outside function panics
/// on a length that does not fit 32 bits, so such input is left out.
#[verifier::external_body]
pub(crate) fn encode_bytes(data: &[u8]) -> (bytes: Vec<u8>)
    requires
        data@.len() <= u32::MAX,
    ensures
        bytes@ == length_prefixed(data@),
{
    data.encode()
}

/// Calls `<u32 as Decode>::decode` of `parity-scale-codec` on `data`: the
/// result is the number that the first four bytes hold, least significant
/// first, and none if there are fewer than four bytes.
#[verifier::external_body]
pub(crate) fn decode_u32(data: &[u8]) -> (value: Option<u32>)
    ensures
        match value {
            Some(n) => data@.len() >= 4 && little_endian(n as nat, 4) == data@.take(4),
            None => data@.len() < 4,
        },
{
    let mut input: &[u8] = data;
    u32::decode(&mut input).ok()
}

} // verus!
