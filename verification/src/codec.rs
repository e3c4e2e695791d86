//! The byte encoding of leaf values, as bincode writes and reads them
//! (little-endian, fixed-width integers, trailing bytes allowed).
use vstd::prelude::*;
use vstd::bytes::*;
use vstd::utf8::*;

verus! {

/// bincode's error type: a boxed `bincode::ErrorKind`.
#[verifier::external_type_specification]
#[verifier::external_body]
pub struct ExBincodeErrorKind(bincode::ErrorKind);


/// The encoding of a `u8`: its 1 little-endian byte.
pub open spec fn spec_u8_bytes(x: u8) -> Seq<u8> {
    seq![x]
}

/// The `u8` that 1 little-endian byte holds.
pub open spec fn spec_u8_from_bytes(s: Seq<u8>) -> u8 {
    s[0]
}

/// `bincode::serialize::<u8>`: the value's 1 little-endian byte.
/// Writing a number into a growable buffer with no size limit cannot fail.
#[verifier::external_body]
fn bincode_serialize_u8(x: u8) -> (r: Result<Vec<u8>, Box<bincode::ErrorKind>>)
    ensures
        r is Ok,
        r matches Ok(b) ==> b@ == spec_u8_bytes(x),
{
    bincode::serialize(&x)
}

/// `bincode::deserialize::<u8>`: succeeds exactly when 1 byte is there,
/// and reads it little-endian; further bytes are ignored.
#[verifier::external_body]
fn bincode_deserialize_u8(data: &[u8]) -> (r: Result<u8, Box<bincode::ErrorKind>>)
    ensures
        r is Ok <==> data@.len() >= 1,
        r matches Ok(v) ==> v == spec_u8_from_bytes(data@.take(1)),
{
    bincode::deserialize(data)
}

/// Reading back the encoding of a `u8` gives the number.
pub proof fn lemma_u8_bytes(x: u8)
    ensures
        spec_u8_bytes(x).len() == 1,
        spec_u8_from_bytes(spec_u8_bytes(x)) == x,
{
    assert(spec_u8_bytes(x)[0] == x);
}

/// The encoding of a `u8`.
pub fn encode_u8(x: u8) -> (r: Vec<u8>)
    ensures
        r@ == spec_u8_bytes(x),
{
    match bincode_serialize_u8(x) {
        Ok(b) => b,
        Err(_) => Vec::new(),
    }
}

/// Reads a `u8` from the start of `data`: it is there exactly when `data`
/// starts with the encoding of a `u8`.
pub fn decode_u8(data: &[u8]) -> (r: Option<u8>)
    ensures
        r is Some <==> data@.len() >= 1,
        r matches Some(v) ==> spec_u8_bytes(v) == data@.take(1),
        forall|x: u8| #[trigger] spec_u8_bytes(x).is_prefix_of(data@) ==> r == Some(x),
{
    let r = match bincode_deserialize_u8(data) {
        Ok(v) => Some(v),
        Err(_) => None,
    };
    proof {
        if data@.len() >= 1 {
            lemma_u8_from_bytes(data@.take(1));
        }
        assert forall|x: u8| #[trigger] spec_u8_bytes(x).is_prefix_of(data@) implies r == Some(x) by {
            lemma_u8_bytes(x);
            assert(data@.take(1) =~= spec_u8_bytes(x));
        }
    }
    r
}

/// Encoding the `u8` that 1 byte holds gives it back.
pub proof fn lemma_u8_from_bytes(s: Seq<u8>)
    requires
        s.len() == 1,
    ensures
        spec_u8_bytes(spec_u8_from_bytes(s)) == s,
{
    assert(spec_u8_bytes(spec_u8_from_bytes(s)) =~= s);
}

/// The encoding of a `u16`: its 2 little-endian bytes.
pub open spec fn spec_u16_bytes(x: u16) -> Seq<u8> {
    spec_u16_to_le_bytes(x)
}

/// The `u16` that 2 little-endian bytes hold.
pub open spec fn spec_u16_from_bytes(s: Seq<u8>) -> u16 {
    spec_u16_from_le_bytes(s)
}

/// `bincode::serialize::<u16>`: the value's 2 little-endian bytes.
/// Writing a number into a growable buffer with no size limit cannot fail.
#[verifier::external_body]
fn bincode_serialize_u16(x: u16) -> (r: Result<Vec<u8>, Box<bincode::ErrorKind>>)
    ensures
        r is Ok,
        r matches Ok(b) ==> b@ == spec_u16_bytes(x),
{
    bincode::serialize(&x)
}

/// `bincode::deserialize::<u16>`: succeeds exactly when 2 bytes are there,
/// and reads them little-endian; further bytes are ignored.
#[verifier::external_body]
fn bincode_deserialize_u16(data: &[u8]) -> (r: Result<u16, Box<bincode::ErrorKind>>)
    ensures
        r is Ok <==> data@.len() >= 2,
        r matches Ok(v) ==> v == spec_u16_from_bytes(data@.take(2)),
{
    bincode::deserialize(data)
}

/// Reading back the encoding of a `u16` gives the number.
pub proof fn lemma_u16_bytes(x: u16)
    ensures
        spec_u16_bytes(x).len() == 2,
        spec_u16_from_bytes(spec_u16_bytes(x)) == x,
{
    lemma_auto_spec_u16_to_from_le_bytes();
    assert(spec_u16_to_le_bytes(x).len() == 2);
}

/// The encoding of a `u16`.
pub fn encode_u16(x: u16) -> (r: Vec<u8>)
    ensures
        r@ == spec_u16_bytes(x),
{
    match bincode_serialize_u16(x) {
        Ok(b) => b,
        Err(_) => Vec::new(),
    }
}

/// Reads a `u16` from the start of `data`: it is there exactly when `data`
/// starts with the encoding of a `u16`.
pub fn decode_u16(data: &[u8]) -> (r: Option<u16>)
    ensures
        r is Some <==> data@.len() >= 2,
        r matches Some(v) ==> spec_u16_bytes(v) == data@.take(2),
        forall|x: u16| #[trigger] spec_u16_bytes(x).is_prefix_of(data@) ==> r == Some(x),
{
    let r = match bincode_deserialize_u16(data) {
        Ok(v) => Some(v),
        Err(_) => None,
    };
    proof {
        if data@.len() >= 2 {
            lemma_u16_from_bytes(data@.take(2));
        }
        assert forall|x: u16| #[trigger] spec_u16_bytes(x).is_prefix_of(data@) implies r == Some(x) by {
            lemma_u16_bytes(x);
            assert(data@.take(2) =~= spec_u16_bytes(x));
        }
    }
    r
}

/// Encoding the `u16` that 2 bytes hold gives them back.
pub proof fn lemma_u16_from_bytes(s: Seq<u8>)
    requires
        s.len() == 2,
    ensures
        spec_u16_bytes(spec_u16_from_bytes(s)) == s,
{
    lemma_auto_spec_u16_to_from_le_bytes();
}

/// The encoding of a `u32`: its 4 little-endian bytes.
pub open spec fn spec_u32_bytes(x: u32) -> Seq<u8> {
    spec_u32_to_le_bytes(x)
}

/// The `u32` that 4 little-endian bytes hold.
pub open spec fn spec_u32_from_bytes(s: Seq<u8>) -> u32 {
    spec_u32_from_le_bytes(s)
}

/// `bincode::serialize::<u32>`: the value's 4 little-endian bytes.
/// Writing a number into a growable buffer with no size limit cannot fail.
#[verifier::external_body]
fn bincode_serialize_u32(x: u32) -> (r: Result<Vec<u8>, Box<bincode::ErrorKind>>)
    ensures
        r is Ok,
        r matches Ok(b) ==> b@ == spec_u32_bytes(x),
{
    bincode::serialize(&x)
}

/// `bincode::deserialize::<u32>`: succeeds exactly when 4 bytes are there,
/// and reads them little-endian; further bytes are ignored.
#[verifier::external_body]
fn bincode_deserialize_u32(data: &[u8]) -> (r: Result<u32, Box<bincode::ErrorKind>>)
    ensures
        r is Ok <==> data@.len() >= 4,
        r matches Ok(v) ==> v == spec_u32_from_bytes(data@.take(4)),
{
    bincode::deserialize(data)
}

/// Reading back the encoding of a `u32` gives the number.
pub proof fn lemma_u32_bytes(x: u32)
    ensures
        spec_u32_bytes(x).len() == 4,
        spec_u32_from_bytes(spec_u32_bytes(x)) == x,
{
    lemma_auto_spec_u32_to_from_le_bytes();
    assert(spec_u32_to_le_bytes(x).len() == 4);
}

/// The encoding of a `u32`.
pub fn encode_u32(x: u32) -> (r: Vec<u8>)
    ensures
        r@ == spec_u32_bytes(x),
{
    match bincode_serialize_u32(x) {
        Ok(b) => b,
        Err(_) => Vec::new(),
    }
}

/// Reads a `u32` from the start of `data`: it is there exactly when `data`
/// starts with the encoding of a `u32`.
pub fn decode_u32(data: &[u8]) -> (r: Option<u32>)
    ensures
        r is Some <==> data@.len() >= 4,
        r matches Some(v) ==> spec_u32_bytes(v) == data@.take(4),
        forall|x: u32| #[trigger] spec_u32_bytes(x).is_prefix_of(data@) ==> r == Some(x),
{
    let r = match bincode_deserialize_u32(data) {
        Ok(v) => Some(v),
        Err(_) => None,
    };
    proof {
        if data@.len() >= 4 {
            lemma_u32_from_bytes(data@.take(4));
        }
        assert forall|x: u32| #[trigger] spec_u32_bytes(x).is_prefix_of(data@) implies r == Some(x) by {
            lemma_u32_bytes(x);
            assert(data@.take(4) =~= spec_u32_bytes(x));
        }
    }
    r
}

/// Encoding the `u32` that 4 bytes hold gives them back.
pub proof fn lemma_u32_from_bytes(s: Seq<u8>)
    requires
        s.len() == 4,
    ensures
        spec_u32_bytes(spec_u32_from_bytes(s)) == s,
{
    lemma_auto_spec_u32_to_from_le_bytes();
}

/// The encoding of a `u64`: its 8 little-endian bytes.
pub open spec fn spec_u64_bytes(x: u64) -> Seq<u8> {
    spec_u64_to_le_bytes(x)
}

/// The `u64` that 8 little-endian bytes hold.
pub open spec fn spec_u64_from_bytes(s: Seq<u8>) -> u64 {
    spec_u64_from_le_bytes(s)
}

/// `bincode::serialize::<u64>`: the value's 8 little-endian bytes.
/// Writing a number into a growable buffer with no size limit cannot fail.
#[verifier::external_body]
fn bincode_serialize_u64(x: u64) -> (r: Result<Vec<u8>, Box<bincode::ErrorKind>>)
    ensures
        r is Ok,
        r matches Ok(b) ==> b@ == spec_u64_bytes(x),
{
    bincode::serialize(&x)
}

/// `bincode::deserialize::<u64>`: succeeds exactly when 8 bytes are there,
/// and reads them little-endian; further bytes are ignored.
#[verifier::external_body]
fn bincode_deserialize_u64(data: &[u8]) -> (r: Result<u64, Box<bincode::ErrorKind>>)
    ensures
        r is Ok <==> data@.len() >= 8,
        r matches Ok(v) ==> v == spec_u64_from_bytes(data@.take(8)),
{
    bincode::deserialize(data)
}

/// Reading back the encoding of a `u64` gives the number.
pub proof fn lemma_u64_bytes(x: u64)
    ensures
        spec_u64_bytes(x).len() == 8,
        spec_u64_from_bytes(spec_u64_bytes(x)) == x,
{
    lemma_auto_spec_u64_to_from_le_bytes();
    assert(spec_u64_to_le_bytes(x).len() == 8);
}

/// The encoding of a `u64`.
pub fn encode_u64(x: u64) -> (r: Vec<u8>)
    ensures
        r@ == spec_u64_bytes(x),
{
    match bincode_serialize_u64(x) {
        Ok(b) => b,
        Err(_) => Vec::new(),
    }
}

/// Reads a `u64` from the start of `data`: it is there exactly when `data`
/// starts with the encoding of a `u64`.
pub fn decode_u64(data: &[u8]) -> (r: Option<u64>)
    ensures
        r is Some <==> data@.len() >= 8,
        r matches Some(v) ==> spec_u64_bytes(v) == data@.take(8),
        forall|x: u64| #[trigger] spec_u64_bytes(x).is_prefix_of(data@) ==> r == Some(x),
{
    let r = match bincode_deserialize_u64(data) {
        Ok(v) => Some(v),
        Err(_) => None,
    };
    proof {
        if data@.len() >= 8 {
            lemma_u64_from_bytes(data@.take(8));
        }
        assert forall|x: u64| #[trigger] spec_u64_bytes(x).is_prefix_of(data@) implies r == Some(x) by {
            lemma_u64_bytes(x);
            assert(data@.take(8) =~= spec_u64_bytes(x));
        }
    }
    r
}

/// Encoding the `u64` that 8 bytes hold gives them back.
pub proof fn lemma_u64_from_bytes(s: Seq<u8>)
    requires
        s.len() == 8,
    ensures
        spec_u64_bytes(spec_u64_from_bytes(s)) == s,
{
    lemma_auto_spec_u64_to_from_le_bytes();
}

/// The encoding of a `u128`: its 16 little-endian bytes.
pub open spec fn spec_u128_bytes(x: u128) -> Seq<u8> {
    spec_u128_to_le_bytes(x)
}

/// The `u128` that 16 little-endian bytes hold.
pub open spec fn spec_u128_from_bytes(s: Seq<u8>) -> u128 {
    spec_u128_from_le_bytes(s)
}

/// `bincode::serialize::<u128>`: the value's 16 little-endian bytes.
/// Writing a number into a growable buffer with no size limit cannot fail.
#[verifier::external_body]
fn bincode_serialize_u128(x: u128) -> (r: Result<Vec<u8>, Box<bincode::ErrorKind>>)
    ensures
        r is Ok,
        r matches Ok(b) ==> b@ == spec_u128_bytes(x),
{
    bincode::serialize(&x)
}

/// `bincode::deserialize::<u128>`: succeeds exactly when 16 bytes are there,
/// and reads them little-endian; further bytes are ignored.
#[verifier::external_body]
fn bincode_deserialize_u128(data: &[u8]) -> (r: Result<u128, Box<bincode::ErrorKind>>)
    ensures
        r is Ok <==> data@.len() >= 16,
        r matches Ok(v) ==> v == spec_u128_from_bytes(data@.take(16)),
{
    bincode::deserialize(data)
}

/// Reading back the encoding of a `u128` gives the number.
pub proof fn lemma_u128_bytes(x: u128)
    ensures
        spec_u128_bytes(x).len() == 16,
        spec_u128_from_bytes(spec_u128_bytes(x)) == x,
{
    lemma_auto_spec_u128_to_from_le_bytes();
    assert(spec_u128_to_le_bytes(x).len() == 16);
}

/// The encoding of a `u128`.
pub fn encode_u128(x: u128) -> (r: Vec<u8>)
    ensures
        r@ == spec_u128_bytes(x),
{
    match bincode_serialize_u128(x) {
        Ok(b) => b,
        Err(_) => Vec::new(),
    }
}

/// Reads a `u128` from the start of `data`: it is there exactly when `data`
/// starts with the encoding of a `u128`.
pub fn decode_u128(data: &[u8]) -> (r: Option<u128>)
    ensures
        r is Some <==> data@.len() >= 16,
        r matches Some(v) ==> spec_u128_bytes(v) == data@.take(16),
        forall|x: u128| #[trigger] spec_u128_bytes(x).is_prefix_of(data@) ==> r == Some(x),
{
    let r = match bincode_deserialize_u128(data) {
        Ok(v) => Some(v),
        Err(_) => None,
    };
    proof {
        if data@.len() >= 16 {
            lemma_u128_from_bytes(data@.take(16));
        }
        assert forall|x: u128| #[trigger] spec_u128_bytes(x).is_prefix_of(data@) implies r == Some(x) by {
            lemma_u128_bytes(x);
            assert(data@.take(16) =~= spec_u128_bytes(x));
        }
    }
    r
}

/// Encoding the `u128` that 16 bytes hold gives them back.
pub proof fn lemma_u128_from_bytes(s: Seq<u8>)
    requires
        s.len() == 16,
    ensures
        spec_u128_bytes(spec_u128_from_bytes(s)) == s,
{
    lemma_auto_spec_u128_to_from_le_bytes();
}

/// The encoding of a `i8`: its 1 little-endian byte.
pub open spec fn spec_i8_bytes(x: i8) -> Seq<u8> {
    seq![x as u8]
}

/// The `i8` that 1 little-endian byte holds.
pub open spec fn spec_i8_from_bytes(s: Seq<u8>) -> i8 {
    s[0] as i8
}

/// `bincode::serialize::<i8>`: the value's 1 little-endian byte.
/// Writing a number into a growable buffer with no size limit cannot fail.
#[verifier::external_body]
fn bincode_serialize_i8(x: i8) -> (r: Result<Vec<u8>, Box<bincode::ErrorKind>>)
    ensures
        r is Ok,
        r matches Ok(b) ==> b@ == spec_i8_bytes(x),
{
    bincode::serialize(&x)
}

/// `bincode::deserialize::<i8>`: succeeds exactly when 1 byte is there,
/// and reads it little-endian; further bytes are ignored.
#[verifier::external_body]
fn bincode_deserialize_i8(data: &[u8]) -> (r: Result<i8, Box<bincode::ErrorKind>>)
    ensures
        r is Ok <==> data@.len() >= 1,
        r matches Ok(v) ==> v == spec_i8_from_bytes(data@.take(1)),
{
    bincode::deserialize(data)
}

/// Reading back the encoding of a `i8` gives the number.
pub proof fn lemma_i8_bytes(x: i8)
    ensures
        spec_i8_bytes(x).len() == 1,
        spec_i8_from_bytes(spec_i8_bytes(x)) == x,
{
    assert((x as u8) as i8 == x) by (bit_vector);
    assert(spec_i8_bytes(x)[0] == x as u8);
}

/// The encoding of a `i8`.
pub fn encode_i8(x: i8) -> (r: Vec<u8>)
    ensures
        r@ == spec_i8_bytes(x),
{
    match bincode_serialize_i8(x) {
        Ok(b) => b,
        Err(_) => Vec::new(),
    }
}

/// Reads a `i8` from the start of `data`: it is there exactly when `data`
/// starts with the encoding of a `i8`.
pub fn decode_i8(data: &[u8]) -> (r: Option<i8>)
    ensures
        r is Some <==> data@.len() >= 1,
        r matches Some(v) ==> spec_i8_bytes(v) == data@.take(1),
        forall|x: i8| #[trigger] spec_i8_bytes(x).is_prefix_of(data@) ==> r == Some(x),
{
    let r = match bincode_deserialize_i8(data) {
        Ok(v) => Some(v),
        Err(_) => None,
    };
    proof {
        if data@.len() >= 1 {
            lemma_i8_from_bytes(data@.take(1));
        }
        assert forall|x: i8| #[trigger] spec_i8_bytes(x).is_prefix_of(data@) implies r == Some(x) by {
            lemma_i8_bytes(x);
            assert(data@.take(1) =~= spec_i8_bytes(x));
        }
    }
    r
}

/// Encoding the `i8` that 1 byte holds gives it back.
pub proof fn lemma_i8_from_bytes(s: Seq<u8>)
    requires
        s.len() == 1,
    ensures
        spec_i8_bytes(spec_i8_from_bytes(s)) == s,
{
    let b = s[0];
    assert(((b as i8) as u8) == b) by (bit_vector);
    assert(spec_i8_bytes(spec_i8_from_bytes(s)) =~= s);
}

/// The encoding of a `i16`: its 2 little-endian bytes.
pub open spec fn spec_i16_bytes(x: i16) -> Seq<u8> {
    spec_u16_to_le_bytes(x as u16)
}

/// The `i16` that 2 little-endian bytes hold.
pub open spec fn spec_i16_from_bytes(s: Seq<u8>) -> i16 {
    spec_u16_from_le_bytes(s) as i16
}

/// `bincode::serialize::<i16>`: the value's 2 little-endian bytes.
/// Writing a number into a growable buffer with no size limit cannot fail.
#[verifier::external_body]
fn bincode_serialize_i16(x: i16) -> (r: Result<Vec<u8>, Box<bincode::ErrorKind>>)
    ensures
        r is Ok,
        r matches Ok(b) ==> b@ == spec_i16_bytes(x),
{
    bincode::serialize(&x)
}

/// `bincode::deserialize::<i16>`: succeeds exactly when 2 bytes are there,
/// and reads them little-endian; further bytes are ignored.
#[verifier::external_body]
fn bincode_deserialize_i16(data: &[u8]) -> (r: Result<i16, Box<bincode::ErrorKind>>)
    ensures
        r is Ok <==> data@.len() >= 2,
        r matches Ok(v) ==> v == spec_i16_from_bytes(data@.take(2)),
{
    bincode::deserialize(data)
}

/// Reading back the encoding of a `i16` gives the number.
pub proof fn lemma_i16_bytes(x: i16)
    ensures
        spec_i16_bytes(x).len() == 2,
        spec_i16_from_bytes(spec_i16_bytes(x)) == x,
{
    lemma_auto_spec_u16_to_from_le_bytes();
    assert(spec_u16_to_le_bytes(x as u16).len() == 2);
    assert(((x as u16) as i16) == x) by (bit_vector);
}

/// The encoding of a `i16`.
pub fn encode_i16(x: i16) -> (r: Vec<u8>)
    ensures
        r@ == spec_i16_bytes(x),
{
    match bincode_serialize_i16(x) {
        Ok(b) => b,
        Err(_) => Vec::new(),
    }
}

/// Reads a `i16` from the start of `data`: it is there exactly when `data`
/// starts with the encoding of a `i16`.
pub fn decode_i16(data: &[u8]) -> (r: Option<i16>)
    ensures
        r is Some <==> data@.len() >= 2,
        r matches Some(v) ==> spec_i16_bytes(v) == data@.take(2),
        forall|x: i16| #[trigger] spec_i16_bytes(x).is_prefix_of(data@) ==> r == Some(x),
{
    let r = match bincode_deserialize_i16(data) {
        Ok(v) => Some(v),
        Err(_) => None,
    };
    proof {
        if data@.len() >= 2 {
            lemma_i16_from_bytes(data@.take(2));
        }
        assert forall|x: i16| #[trigger] spec_i16_bytes(x).is_prefix_of(data@) implies r == Some(x) by {
            lemma_i16_bytes(x);
            assert(data@.take(2) =~= spec_i16_bytes(x));
        }
    }
    r
}

/// Encoding the `i16` that 2 bytes hold gives them back.
pub proof fn lemma_i16_from_bytes(s: Seq<u8>)
    requires
        s.len() == 2,
    ensures
        spec_i16_bytes(spec_i16_from_bytes(s)) == s,
{
    lemma_auto_spec_u16_to_from_le_bytes();
    let y = spec_u16_from_le_bytes(s);
    assert(((y as i16) as u16) == y) by (bit_vector);
}

/// The encoding of a `i32`: its 4 little-endian bytes.
pub open spec fn spec_i32_bytes(x: i32) -> Seq<u8> {
    spec_u32_to_le_bytes(x as u32)
}

/// The `i32` that 4 little-endian bytes hold.
pub open spec fn spec_i32_from_bytes(s: Seq<u8>) -> i32 {
    spec_u32_from_le_bytes(s) as i32
}

/// `bincode::serialize::<i32>`: the value's 4 little-endian bytes.
/// Writing a number into a growable buffer with no size limit cannot fail.
#[verifier::external_body]
fn bincode_serialize_i32(x: i32) -> (r: Result<Vec<u8>, Box<bincode::ErrorKind>>)
    ensures
        r is Ok,
        r matches Ok(b) ==> b@ == spec_i32_bytes(x),
{
    bincode::serialize(&x)
}

/// `bincode::deserialize::<i32>`: succeeds exactly when 4 bytes are there,
/// and reads them little-endian; further bytes are ignored.
#[verifier::external_body]
fn bincode_deserialize_i32(data: &[u8]) -> (r: Result<i32, Box<bincode::ErrorKind>>)
    ensures
        r is Ok <==> data@.len() >= 4,
        r matches Ok(v) ==> v == spec_i32_from_bytes(data@.take(4)),
{
    bincode::deserialize(data)
}

/// Reading back the encoding of a `i32` gives the number.
pub proof fn lemma_i32_bytes(x: i32)
    ensures
        spec_i32_bytes(x).len() == 4,
        spec_i32_from_bytes(spec_i32_bytes(x)) == x,
{
    lemma_auto_spec_u32_to_from_le_bytes();
    assert(spec_u32_to_le_bytes(x as u32).len() == 4);
    assert(((x as u32) as i32) == x) by (bit_vector);
}

/// The encoding of a `i32`.
pub fn encode_i32(x: i32) -> (r: Vec<u8>)
    ensures
        r@ == spec_i32_bytes(x),
{
    match bincode_serialize_i32(x) {
        Ok(b) => b,
        Err(_) => Vec::new(),
    }
}

/// Reads a `i32` from the start of `data`: it is there exactly when `data`
/// starts with the encoding of a `i32`.
pub fn decode_i32(data: &[u8]) -> (r: Option<i32>)
    ensures
        r is Some <==> data@.len() >= 4,
        r matches Some(v) ==> spec_i32_bytes(v) == data@.take(4),
        forall|x: i32| #[trigger] spec_i32_bytes(x).is_prefix_of(data@) ==> r == Some(x),
{
    let r = match bincode_deserialize_i32(data) {
        Ok(v) => Some(v),
        Err(_) => None,
    };
    proof {
        if data@.len() >= 4 {
            lemma_i32_from_bytes(data@.take(4));
        }
        assert forall|x: i32| #[trigger] spec_i32_bytes(x).is_prefix_of(data@) implies r == Some(x) by {
            lemma_i32_bytes(x);
            assert(data@.take(4) =~= spec_i32_bytes(x));
        }
    }
    r
}

/// Encoding the `i32` that 4 bytes hold gives them back.
pub proof fn lemma_i32_from_bytes(s: Seq<u8>)
    requires
        s.len() == 4,
    ensures
        spec_i32_bytes(spec_i32_from_bytes(s)) == s,
{
    lemma_auto_spec_u32_to_from_le_bytes();
    let y = spec_u32_from_le_bytes(s);
    assert(((y as i32) as u32) == y) by (bit_vector);
}

/// The encoding of a `i64`: its 8 little-endian bytes.
pub open spec fn spec_i64_bytes(x: i64) -> Seq<u8> {
    spec_u64_to_le_bytes(x as u64)
}

/// The `i64` that 8 little-endian bytes hold.
pub open spec fn spec_i64_from_bytes(s: Seq<u8>) -> i64 {
    spec_u64_from_le_bytes(s) as i64
}

/// `bincode::serialize::<i64>`: the value's 8 little-endian bytes.
/// Writing a number into a growable buffer with no size limit cannot fail.
#[verifier::external_body]
fn bincode_serialize_i64(x: i64) -> (r: Result<Vec<u8>, Box<bincode::ErrorKind>>)
    ensures
        r is Ok,
        r matches Ok(b) ==> b@ == spec_i64_bytes(x),
{
    bincode::serialize(&x)
}

/// `bincode::deserialize::<i64>`: succeeds exactly when 8 bytes are there,
/// and reads them little-endian; further bytes are ignored.
#[verifier::external_body]
fn bincode_deserialize_i64(data: &[u8]) -> (r: Result<i64, Box<bincode::ErrorKind>>)
    ensures
        r is Ok <==> data@.len() >= 8,
        r matches Ok(v) ==> v == spec_i64_from_bytes(data@.take(8)),
{
    bincode::deserialize(data)
}

/// Reading back the encoding of a `i64` gives the number.
pub proof fn lemma_i64_bytes(x: i64)
    ensures
        spec_i64_bytes(x).len() == 8,
        spec_i64_from_bytes(spec_i64_bytes(x)) == x,
{
    lemma_auto_spec_u64_to_from_le_bytes();
    assert(spec_u64_to_le_bytes(x as u64).len() == 8);
    assert(((x as u64) as i64) == x) by (bit_vector);
}

/// The encoding of a `i64`.
pub fn encode_i64(x: i64) -> (r: Vec<u8>)
    ensures
        r@ == spec_i64_bytes(x),
{
    match bincode_serialize_i64(x) {
        Ok(b) => b,
        Err(_) => Vec::new(),
    }
}

/// Reads a `i64` from the start of `data`: it is there exactly when `data`
/// starts with the encoding of a `i64`.
pub fn decode_i64(data: &[u8]) -> (r: Option<i64>)
    ensures
        r is Some <==> data@.len() >= 8,
        r matches Some(v) ==> spec_i64_bytes(v) == data@.take(8),
        forall|x: i64| #[trigger] spec_i64_bytes(x).is_prefix_of(data@) ==> r == Some(x),
{
    let r = match bincode_deserialize_i64(data) {
        Ok(v) => Some(v),
        Err(_) => None,
    };
    proof {
        if data@.len() >= 8 {
            lemma_i64_from_bytes(data@.take(8));
        }
        assert forall|x: i64| #[trigger] spec_i64_bytes(x).is_prefix_of(data@) implies r == Some(x) by {
            lemma_i64_bytes(x);
            assert(data@.take(8) =~= spec_i64_bytes(x));
        }
    }
    r
}

/// Encoding the `i64` that 8 bytes hold gives them back.
pub proof fn lemma_i64_from_bytes(s: Seq<u8>)
    requires
        s.len() == 8,
    ensures
        spec_i64_bytes(spec_i64_from_bytes(s)) == s,
{
    lemma_auto_spec_u64_to_from_le_bytes();
    let y = spec_u64_from_le_bytes(s);
    assert(((y as i64) as u64) == y) by (bit_vector);
}

/// The encoding of a `i128`: its 16 little-endian bytes.
pub open spec fn spec_i128_bytes(x: i128) -> Seq<u8> {
    spec_u128_to_le_bytes(x as u128)
}

/// The `i128` that 16 little-endian bytes hold.
pub open spec fn spec_i128_from_bytes(s: Seq<u8>) -> i128 {
    spec_u128_from_le_bytes(s) as i128
}

/// `bincode::serialize::<i128>`: the value's 16 little-endian bytes.
/// Writing a number into a growable buffer with no size limit cannot fail.
#[verifier::external_body]
fn bincode_serialize_i128(x: i128) -> (r: Result<Vec<u8>, Box<bincode::ErrorKind>>)
    ensures
        r is Ok,
        r matches Ok(b) ==> b@ == spec_i128_bytes(x),
{
    bincode::serialize(&x)
}

/// `bincode::deserialize::<i128>`: succeeds exactly when 16 bytes are there,
/// and reads them little-endian; further bytes are ignored.
#[verifier::external_body]
fn bincode_deserialize_i128(data: &[u8]) -> (r: Result<i128, Box<bincode::ErrorKind>>)
    ensures
        r is Ok <==> data@.len() >= 16,
        r matches Ok(v) ==> v == spec_i128_from_bytes(data@.take(16)),
{
    bincode::deserialize(data)
}

/// Reading back the encoding of a `i128` gives the number.
pub proof fn lemma_i128_bytes(x: i128)
    ensures
        spec_i128_bytes(x).len() == 16,
        spec_i128_from_bytes(spec_i128_bytes(x)) == x,
{
    lemma_auto_spec_u128_to_from_le_bytes();
    assert(spec_u128_to_le_bytes(x as u128).len() == 16);
    assert(((x as u128) as i128) == x) by (bit_vector);
}

/// The encoding of a `i128`.
pub fn encode_i128(x: i128) -> (r: Vec<u8>)
    ensures
        r@ == spec_i128_bytes(x),
{
    match bincode_serialize_i128(x) {
        Ok(b) => b,
        Err(_) => Vec::new(),
    }
}

/// Reads a `i128` from the start of `data`: it is there exactly when `data`
/// starts with the encoding of a `i128`.
pub fn decode_i128(data: &[u8]) -> (r: Option<i128>)
    ensures
        r is Some <==> data@.len() >= 16,
        r matches Some(v) ==> spec_i128_bytes(v) == data@.take(16),
        forall|x: i128| #[trigger] spec_i128_bytes(x).is_prefix_of(data@) ==> r == Some(x),
{
    let r = match bincode_deserialize_i128(data) {
        Ok(v) => Some(v),
        Err(_) => None,
    };
    proof {
        if data@.len() >= 16 {
            lemma_i128_from_bytes(data@.take(16));
        }
        assert forall|x: i128| #[trigger] spec_i128_bytes(x).is_prefix_of(data@) implies r == Some(x) by {
            lemma_i128_bytes(x);
            assert(data@.take(16) =~= spec_i128_bytes(x));
        }
    }
    r
}

/// Encoding the `i128` that 16 bytes hold gives them back.
pub proof fn lemma_i128_from_bytes(s: Seq<u8>)
    requires
        s.len() == 16,
    ensures
        spec_i128_bytes(spec_i128_from_bytes(s)) == s,
{
    lemma_auto_spec_u128_to_from_le_bytes();
    let y = spec_u128_from_le_bytes(s);
    assert(((y as i128) as u128) == y) by (bit_vector);
}

/// The encoding of a `usize`: its 8 little-endian bytes.
pub open spec fn spec_usize_bytes(x: usize) -> Seq<u8> {
    spec_u64_to_le_bytes(x as u64)
}

/// The `usize` that 8 little-endian bytes hold.
pub open spec fn spec_usize_from_bytes(s: Seq<u8>) -> usize {
    spec_u64_from_le_bytes(s) as usize
}

/// `bincode::serialize::<usize>`: the value's 8 little-endian bytes.
/// Writing a number into a growable buffer with no size limit cannot fail.
#[verifier::external_body]
fn bincode_serialize_usize(x: usize) -> (r: Result<Vec<u8>, Box<bincode::ErrorKind>>)
    ensures
        r is Ok,
        r matches Ok(b) ==> b@ == spec_usize_bytes(x),
{
    bincode::serialize(&x)
}

/// `bincode::deserialize::<usize>`: succeeds exactly when 8 bytes are there and the number fits in a `usize`,
/// and reads them little-endian; further bytes are ignored.
#[verifier::external_body]
fn bincode_deserialize_usize(data: &[u8]) -> (r: Result<usize, Box<bincode::ErrorKind>>)
    ensures
        r is Ok <==> (data@.len() >= 8 && spec_u64_from_le_bytes(data@.take(8)) <= usize::MAX),
        r matches Ok(v) ==> v == spec_usize_from_bytes(data@.take(8)),
{
    bincode::deserialize(data)
}

/// Reading back the encoding of a `usize` gives the number.
pub proof fn lemma_usize_bytes(x: usize)
    ensures
        spec_usize_bytes(x).len() == 8,
        spec_usize_from_bytes(spec_usize_bytes(x)) == x,
{
    lemma_auto_spec_u64_to_from_le_bytes();
    assert(spec_u64_to_le_bytes(x as u64).len() == 8);
    assert((x as u64) as usize == x);
}

/// The encoding of a `usize`.
pub fn encode_usize(x: usize) -> (r: Vec<u8>)
    ensures
        r@ == spec_usize_bytes(x),
{
    match bincode_serialize_usize(x) {
        Ok(b) => b,
        Err(_) => Vec::new(),
    }
}

/// Reads a `usize` from the start of `data`: it is there exactly when `data`
/// starts with the encoding of a `usize`.
pub fn decode_usize(data: &[u8]) -> (r: Option<usize>)
    ensures
        r is Some <==> data@.len() >= 8 && spec_u64_from_le_bytes(data@.take(8)) <= usize::MAX,
        r matches Some(v) ==> spec_usize_bytes(v) == data@.take(8),
        forall|x: usize| #[trigger] spec_usize_bytes(x).is_prefix_of(data@) ==> r == Some(x),
{
    let r = match bincode_deserialize_usize(data) {
        Ok(v) => Some(v),
        Err(_) => None,
    };
    proof {
        if data@.len() >= 8 && spec_u64_from_le_bytes(data@.take(8)) <= usize::MAX {
            lemma_usize_from_bytes(data@.take(8));
        }
        assert forall|x: usize| #[trigger] spec_usize_bytes(x).is_prefix_of(data@) implies r == Some(x) by {
            lemma_usize_bytes(x);
            lemma_auto_spec_u64_to_from_le_bytes();
            assert(data@.take(8) =~= spec_usize_bytes(x));
        }
    }
    r
}

/// Encoding the `usize` that 8 bytes hold gives them back.
pub proof fn lemma_usize_from_bytes(s: Seq<u8>)
    requires
        s.len() == 8,
        spec_u64_from_le_bytes(s) <= usize::MAX,
    ensures
        spec_usize_bytes(spec_usize_from_bytes(s)) == s,
{
    lemma_auto_spec_u64_to_from_le_bytes();
    let y = spec_u64_from_le_bytes(s);
    assert((y as usize) as u64 == y);
}

/// The encoding of a `isize`: its 8 little-endian bytes.
pub open spec fn spec_isize_bytes(x: isize) -> Seq<u8> {
    spec_u64_to_le_bytes(x as u64)
}

/// The `isize` that 8 little-endian bytes hold.
pub open spec fn spec_isize_from_bytes(s: Seq<u8>) -> isize {
    (spec_u64_from_le_bytes(s) as i64) as isize
}

/// `bincode::serialize::<isize>`: the value's 8 little-endian bytes.
/// Writing a number into a growable buffer with no size limit cannot fail.
#[verifier::external_body]
fn bincode_serialize_isize(x: isize) -> (r: Result<Vec<u8>, Box<bincode::ErrorKind>>)
    ensures
        r is Ok,
        r matches Ok(b) ==> b@ == spec_isize_bytes(x),
{
    bincode::serialize(&x)
}

/// `bincode::deserialize::<isize>`: succeeds exactly when 8 bytes are there and the number fits in an `isize`,
/// and reads them little-endian; further bytes are ignored.
#[verifier::external_body]
fn bincode_deserialize_isize(data: &[u8]) -> (r: Result<isize, Box<bincode::ErrorKind>>)
    ensures
        r is Ok <==> (data@.len() >= 8 && isize::MIN <= (spec_u64_from_le_bytes(data@.take(8)) as i64) <= isize::MAX),
        r matches Ok(v) ==> v == spec_isize_from_bytes(data@.take(8)),
{
    bincode::deserialize(data)
}

/// Reading back the encoding of a `isize` gives the number.
pub proof fn lemma_isize_bytes(x: isize)
    ensures
        spec_isize_bytes(x).len() == 8,
        spec_isize_from_bytes(spec_isize_bytes(x)) == x,
{
    lemma_auto_spec_u64_to_from_le_bytes();
    assert(spec_u64_to_le_bytes(x as u64).len() == 8);
    assert(((x as u64) as i64) as isize == x) by (bit_vector);
}

/// The encoding of a `isize`.
pub fn encode_isize(x: isize) -> (r: Vec<u8>)
    ensures
        r@ == spec_isize_bytes(x),
{
    match bincode_serialize_isize(x) {
        Ok(b) => b,
        Err(_) => Vec::new(),
    }
}

/// Reads a `isize` from the start of `data`: it is there exactly when `data`
/// starts with the encoding of a `isize`.
pub fn decode_isize(data: &[u8]) -> (r: Option<isize>)
    ensures
        r is Some <==> data@.len() >= 8 && isize::MIN <= (spec_u64_from_le_bytes(data@.take(8)) as i64) <= isize::MAX,
        r matches Some(v) ==> spec_isize_bytes(v) == data@.take(8),
        forall|x: isize| #[trigger] spec_isize_bytes(x).is_prefix_of(data@) ==> r == Some(x),
{
    let r = match bincode_deserialize_isize(data) {
        Ok(v) => Some(v),
        Err(_) => None,
    };
    proof {
        if data@.len() >= 8 && isize::MIN <= (spec_u64_from_le_bytes(data@.take(8)) as i64) <= isize::MAX {
            lemma_isize_from_bytes(data@.take(8));
        }
        assert forall|x: isize| #[trigger] spec_isize_bytes(x).is_prefix_of(data@) implies r == Some(x) by {
            lemma_isize_bytes(x);
            lemma_auto_spec_u64_to_from_le_bytes();
            assert(((x as u64) as i64) == x as i64) by (bit_vector);
            assert(data@.take(8) =~= spec_isize_bytes(x));
        }
    }
    r
}

/// Encoding the `isize` that 8 bytes hold gives them back.
pub proof fn lemma_isize_from_bytes(s: Seq<u8>)
    requires
        s.len() == 8,
        isize::MIN <= (spec_u64_from_le_bytes(s) as i64) <= isize::MAX,
    ensures
        spec_isize_bytes(spec_isize_from_bytes(s)) == s,
{
    lemma_auto_spec_u64_to_from_le_bytes();
    let y = spec_u64_from_le_bytes(s);
    assert((y as i64) as u64 == y) by (bit_vector);
}

/// The encoding of a `bool`: one byte, 1 for `true` and 0 for `false`.
pub open spec fn spec_bool_bytes(b: bool) -> Seq<u8> {
    seq![if b { 1u8 } else { 0u8 }]
}

/// `bincode::serialize::<bool>`: one byte, 1 or 0. Writing into a growable
/// buffer with no size limit cannot fail.
#[verifier::external_body]
fn bincode_serialize_bool(b: bool) -> (r: Result<Vec<u8>, Box<bincode::ErrorKind>>)
    ensures
        r is Ok,
        r matches Ok(v) ==> v@ == spec_bool_bytes(b),
{
    bincode::serialize(&b)
}

/// `bincode::deserialize::<bool>`: the first byte, which must be 0 or 1.
#[verifier::external_body]
fn bincode_deserialize_bool(data: &[u8]) -> (r: Result<bool, Box<bincode::ErrorKind>>)
    ensures
        r is Ok <==> (data@.len() >= 1 && (data@[0] == 0 || data@[0] == 1)),
        r matches Ok(b) ==> b == (data@[0] == 1),
{
    bincode::deserialize(data)
}

/// The encoding of a `bool`.
pub fn encode_bool(b: bool) -> (r: Vec<u8>)
    ensures
        r@ == spec_bool_bytes(b),
{
    match bincode_serialize_bool(b) {
        Ok(v) => v,
        Err(_) => Vec::new(),
    }
}

/// Reads a `bool` from the start of `data`: it is there exactly when `data`
/// starts with the encoding of a `bool`.
pub fn decode_bool(data: &[u8]) -> (r: Option<bool>)
    ensures
        r is Some <==> (data@.len() >= 1 && (data@[0] == 0 || data@[0] == 1)),
        r matches Some(b) ==> spec_bool_bytes(b) == data@.take(1),
        forall|x: bool| #[trigger] spec_bool_bytes(x).is_prefix_of(data@) ==> r == Some(x),
{
    let r = match bincode_deserialize_bool(data) {
        Ok(b) => Some(b),
        Err(_) => None,
    };
    proof {
        if r is Some {
            assert(spec_bool_bytes(r->0) =~= data@.take(1));
        }
        assert forall|x: bool| #[trigger] spec_bool_bytes(x).is_prefix_of(data@) implies r == Some(x) by {
            assert(data@[0] == spec_bool_bytes(x)[0]);
        }
    }
    r
}

/// The encoding of a `char`: its UTF-8 bytes.
pub open spec fn spec_char_bytes(c: char) -> Seq<u8> {
    encode_utf8(seq![c])
}

/// `bincode::serialize::<char>`: the character's UTF-8 bytes. Writing into a
/// growable buffer with no size limit cannot fail.
#[verifier::external_body]
fn bincode_serialize_char(c: char) -> (r: Result<Vec<u8>, Box<bincode::ErrorKind>>)
    ensures
        r is Ok,
        r matches Ok(v) ==> v@ == spec_char_bytes(c),
{
    bincode::serialize(&c)
}

/// `bincode::deserialize::<char>`: reads as many bytes as the first byte
/// announces and succeeds when they are the UTF-8 encoding of a character,
/// which it gives.
#[verifier::external_body]
fn bincode_deserialize_char(data: &[u8]) -> (r: Result<char, Box<bincode::ErrorKind>>)
    ensures
        r matches Ok(c) ==> spec_char_bytes(c).is_prefix_of(data@),
        forall|c: char| #[trigger] spec_char_bytes(c).is_prefix_of(data@) ==> (r is Ok && r->Ok_0 == c),
{
    bincode::deserialize(data)
}

/// The encoding of a `char`.
pub fn encode_char(c: char) -> (r: Vec<u8>)
    ensures
        r@ == spec_char_bytes(c),
{
    match bincode_serialize_char(c) {
        Ok(v) => v,
        Err(_) => Vec::new(),
    }
}

/// Reads a `char` from the start of `data`.
pub fn decode_char(data: &[u8]) -> (r: Option<char>)
    ensures
        r matches Some(c) ==> spec_char_bytes(c).is_prefix_of(data@),
        forall|x: char| #[trigger] spec_char_bytes(x).is_prefix_of(data@) ==> r == Some(x),
{
    match bincode_deserialize_char(data) {
        Ok(c) => Some(c),
        Err(_) => None,
    }
}

/// `char::from_u32`: the character whose scalar value is `x`, where `x` is
/// one (at most 0x10FFFF and not a surrogate).
#[verifier::external_body]
pub(crate) fn char_from_u32(x: u32) -> (r: Option<char>)
    ensures
        r is Some <==> is_scalar(x),
        r matches Some(c) ==> c as u32 == x,
{
    char::from_u32(x)
}

/// The encoding of a `String`: the number of its UTF-8 bytes as a `u64`,
/// then those bytes.
pub open spec fn spec_string_bytes(s: Seq<char>) -> Seq<u8> {
    spec_u64_bytes(encode_utf8(s).len() as u64) + encode_utf8(s)
}

/// The length announced at the start of `data`, as a number.
pub open spec fn spec_announced_len(data: Seq<u8>) -> int {
    spec_u64_from_le_bytes(data.take(8)) as int
}

/// `bincode::serialize::<String>`: the byte length as a `u64`, then the
/// UTF-8 bytes. Writing into a growable buffer with no size limit cannot fail.
#[verifier::external_body]
fn bincode_serialize_string(s: &String) -> (r: Result<Vec<u8>, Box<bincode::ErrorKind>>)
    ensures
        r is Ok,
        r matches Ok(v) ==> v@ == spec_string_bytes(s@),
{
    bincode::serialize(s)
}

/// `bincode::deserialize::<String>`: reads a `u64` length, then that many
/// bytes, which must be valid UTF-8; the string they encode.
#[verifier::external_body]
fn bincode_deserialize_string(data: &[u8]) -> (r: Result<String, Box<bincode::ErrorKind>>)
    ensures
        r is Ok <==> ({
            &&& data@.len() >= 8
            &&& data@.len() >= 8 + spec_announced_len(data@)
            &&& valid_utf8(data@.subrange(8, 8 + spec_announced_len(data@)))
        }),
        r matches Ok(s) ==> encode_utf8(s@) == data@.subrange(8, 8 + spec_announced_len(data@)),
{
    bincode::deserialize(data)
}

/// The encoding of a `String`.
pub fn encode_string(s: &String) -> (r: Vec<u8>)
    ensures
        r@ == spec_string_bytes(s@),
{
    match bincode_serialize_string(s) {
        Ok(v) => v,
        Err(_) => Vec::new(),
    }
}

/// Reads a `String` from the start of `data`, with the number of bytes it
/// took.
pub fn decode_string(data: &[u8]) -> (r: Option<(String, usize)>)
    ensures
        r matches Some((s, n)) ==> n <= data@.len() && data@.take(n as int) == spec_string_bytes(s@),
        forall|x: Seq<char>| #[trigger] spec_string_bytes(x).is_prefix_of(data@) ==> {
            &&& r is Some
            &&& r matches Some((s, n)) ==> s@ == x && n == spec_string_bytes(x).len()
        },
{
    broadcast use encode_utf8_valid_utf8, encode_utf8_decode_utf8, decode_utf8_encode_utf8;
    let len = data.len();
    let r = match bincode_deserialize_string(data) {
        Ok(s) => {
            let n = decode_u64(data).unwrap();
            proof {
                lemma_u64_bytes(n);
                assert(n as int == spec_announced_len(data@));
            }
            let end = 8 + (n as usize);
            proof {
                assert(data@.take(end as int) =~= data@.take(8) + data@.subrange(8, end as int));
                assert(encode_utf8(s@).len() == n);
            }
            Some((s, end))
        },
        Err(_) => None,
    };
    proof {
        assert forall|x: Seq<char>| #[trigger] spec_string_bytes(x).is_prefix_of(data@) implies {
            &&& r is Some
            &&& r matches Some((s, n)) ==> s@ == x && n == spec_string_bytes(x).len()
        } by {
            let k: int = encode_utf8(x).len() as int;
            let b = spec_string_bytes(x);
            assert(b.len() == 8 + k) by {
                lemma_u64_bytes(k as u64);
            }
            assert(k <= len);
            lemma_u64_bytes(k as u64);
            assert(data@.take(8) =~= b.take(8));
            assert(b.take(8) =~= spec_u64_bytes(k as u64));
            assert(spec_announced_len(data@) == k);
            assert(data@.subrange(8, 8 + k) =~= b.subrange(8, 8 + k));
            assert(b.subrange(8, 8 + k) =~= encode_utf8(x));
            if let Some((s, n)) = r {
                assert(decode_utf8(encode_utf8(s@)) == s@);
            }
        }
    }
    r
}

/// The bytes that announce a sequence of `len` elements: the length as a
/// `u64`, in its eight little-endian bytes.
pub fn serialize_vec_len(len: usize) -> (r: Vec<u8>)
    ensures
        r@ == spec_u64_bytes(len as u64),
        r@.len() == 8,
{
    proof { lemma_u64_bytes(len as u64); }
    encode_u64(len as u64)
}

} // verus!
