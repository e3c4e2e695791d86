//! Length prefixes in the SCALE encoding, which writes lengths as compact
//! integers.
use vstd::prelude::*;
use parity_scale_codec::Encode;
use crate::codec::{spec_u16_bytes, spec_u32_bytes, lemma_u16_bytes, lemma_u32_bytes};

verus! {

/// The SCALE compact encoding of a `u32`: below 2^6 one byte holding the
/// value times four; below 2^14 two little-endian bytes holding the value
/// times four plus one; below 2^30 four little-endian bytes holding the
/// value times four plus two; otherwise the byte 3 followed by the value's
/// four little-endian bytes.
pub open spec fn spec_compact_u32_bytes(x: u32) -> Seq<u8> {
    if x < 0x40 {
        seq![(x * 4) as u8]
    } else if x < 0x4000 {
        spec_u16_bytes((x * 4 + 1) as u16)
    } else if x < 0x4000_0000 {
        spec_u32_bytes((x * 4 + 2) as u32)
    } else {
        seq![3u8] + spec_u32_bytes(x)
    }
}

/// `Compact(x).encode()` of `parity_scale_codec` for a `u32`, as the
/// crate's `Encode` impl for `CompactRef<u32>` writes it: one, two, four or
/// five bytes by the size of the value, the mode in the two low bits of the
/// first byte.
#[verifier::external_body]
fn scale_compact_u32(x: u32) -> (r: Vec<u8>)
    ensures
        r@ == spec_compact_u32_bytes(x),
{
    parity_scale_codec::Compact(x).encode()
}

/// The bytes that announce a sequence of `len` elements in the SCALE
/// encoding: the length cut to 32 bits, as a compact integer.
pub fn serialize_vec_len(len: usize) -> (r: Vec<u8>)
    ensures
        r@ == spec_compact_u32_bytes(len as u32),
        (len as u32) < 0x40 ==> r@.len() == 1,
        0x40 <= (len as u32) < 0x4000 ==> r@.len() == 2,
        0x4000 <= (len as u32) < 0x4000_0000 ==> r@.len() == 4,
        0x4000_0000 <= (len as u32) ==> r@.len() == 5,
{
    let n: u32 = #[verifier::truncate] (len as u32);
    proof {
        lemma_u16_bytes((n * 4 + 1) as u16);
        lemma_u32_bytes((n * 4 + 2) as u32);
        lemma_u32_bytes(n);
    }
    scale_compact_u32(n)
}

} // verus!
