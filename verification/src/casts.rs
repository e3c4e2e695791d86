//! Conversions between the numbers of the grammar and the `u64` operands
//! that comparisons are reported with.
use vstd::prelude::*;

verus! {

/// A `u8` as a comparison operand.
pub open spec fn widen_u8(x: u8) -> u64 {
    x as u64
}

/// A comparison operand as a `u8`: its low bits.
pub open spec fn narrow_u8(x: u64) -> u8 {
    x as u8
}

/// A `u8` as a comparison operand.
pub fn operand_of_u8(x: u8) -> (r: u64)
    ensures
        r == widen_u8(x),
{
    x as u64
}

/// A comparison operand as a `u8`.
pub fn u8_of_operand(x: u64) -> (r: u8)
    ensures
        r == narrow_u8(x),
{
    x as u8
}

/// A `u16` as a comparison operand.
pub open spec fn widen_u16(x: u16) -> u64 {
    x as u64
}

/// A comparison operand as a `u16`: its low bits.
pub open spec fn narrow_u16(x: u64) -> u16 {
    x as u16
}

/// A `u16` as a comparison operand.
pub fn operand_of_u16(x: u16) -> (r: u64)
    ensures
        r == widen_u16(x),
{
    x as u64
}

/// A comparison operand as a `u16`.
pub fn u16_of_operand(x: u64) -> (r: u16)
    ensures
        r == narrow_u16(x),
{
    x as u16
}

/// A `u32` as a comparison operand.
pub open spec fn widen_u32(x: u32) -> u64 {
    x as u64
}

/// A comparison operand as a `u32`: its low bits.
pub open spec fn narrow_u32(x: u64) -> u32 {
    x as u32
}

/// A `u32` as a comparison operand.
pub fn operand_of_u32(x: u32) -> (r: u64)
    ensures
        r == widen_u32(x),
{
    x as u64
}

/// A comparison operand as a `u32`.
pub fn u32_of_operand(x: u64) -> (r: u32)
    ensures
        r == narrow_u32(x),
{
    x as u32
}

/// A `u64` as a comparison operand.
pub open spec fn widen_u64(x: u64) -> u64 {
    x as u64
}

/// A comparison operand as a `u64`: its low bits.
pub open spec fn narrow_u64(x: u64) -> u64 {
    x as u64
}

/// A `u64` as a comparison operand.
pub fn operand_of_u64(x: u64) -> (r: u64)
    ensures
        r == widen_u64(x),
{
    x as u64
}

/// A comparison operand as a `u64`.
pub fn u64_of_operand(x: u64) -> (r: u64)
    ensures
        r == narrow_u64(x),
{
    x as u64
}

/// A `u128` as a comparison operand.
pub open spec fn widen_u128(x: u128) -> u64 {
    x as u64
}

/// A comparison operand as a `u128`: its low bits.
pub open spec fn narrow_u128(x: u64) -> u128 {
    x as u128
}

/// A `u128` as a comparison operand.
pub fn operand_of_u128(x: u128) -> (r: u64)
    ensures
        r == widen_u128(x),
{
    x as u64
}

/// A comparison operand as a `u128`.
pub fn u128_of_operand(x: u64) -> (r: u128)
    ensures
        r == narrow_u128(x),
{
    x as u128
}

/// A `i8` as a comparison operand.
pub open spec fn widen_i8(x: i8) -> u64 {
    x as u64
}

/// A comparison operand as a `i8`: its low bits.
pub open spec fn narrow_i8(x: u64) -> i8 {
    x as i8
}

/// A `i8` as a comparison operand.
pub fn operand_of_i8(x: i8) -> (r: u64)
    ensures
        r == widen_i8(x),
{
    x as u64
}

/// A comparison operand as a `i8`.
pub fn i8_of_operand(x: u64) -> (r: i8)
    ensures
        r == narrow_i8(x),
{
    x as i8
}

/// A `i16` as a comparison operand.
pub open spec fn widen_i16(x: i16) -> u64 {
    x as u64
}

/// A comparison operand as a `i16`: its low bits.
pub open spec fn narrow_i16(x: u64) -> i16 {
    x as i16
}

/// A `i16` as a comparison operand.
pub fn operand_of_i16(x: i16) -> (r: u64)
    ensures
        r == widen_i16(x),
{
    x as u64
}

/// A comparison operand as a `i16`.
pub fn i16_of_operand(x: u64) -> (r: i16)
    ensures
        r == narrow_i16(x),
{
    x as i16
}

/// A `i32` as a comparison operand.
pub open spec fn widen_i32(x: i32) -> u64 {
    x as u64
}

/// A comparison operand as a `i32`: its low bits.
pub open spec fn narrow_i32(x: u64) -> i32 {
    x as i32
}

/// A `i32` as a comparison operand.
pub fn operand_of_i32(x: i32) -> (r: u64)
    ensures
        r == widen_i32(x),
{
    x as u64
}

/// A comparison operand as a `i32`.
pub fn i32_of_operand(x: u64) -> (r: i32)
    ensures
        r == narrow_i32(x),
{
    x as i32
}

/// A `i64` as a comparison operand.
pub open spec fn widen_i64(x: i64) -> u64 {
    x as u64
}

/// A comparison operand as a `i64`: its low bits.
pub open spec fn narrow_i64(x: u64) -> i64 {
    x as i64
}

/// A `i64` as a comparison operand.
pub fn operand_of_i64(x: i64) -> (r: u64)
    ensures
        r == widen_i64(x),
{
    x as u64
}

/// A comparison operand as a `i64`.
pub fn i64_of_operand(x: u64) -> (r: i64)
    ensures
        r == narrow_i64(x),
{
    x as i64
}

/// A `i128` as a comparison operand.
pub open spec fn widen_i128(x: i128) -> u64 {
    x as u64
}

/// A comparison operand as a `i128`: its low bits.
pub open spec fn narrow_i128(x: u64) -> i128 {
    x as i128
}

/// A `i128` as a comparison operand.
pub fn operand_of_i128(x: i128) -> (r: u64)
    ensures
        r == widen_i128(x),
{
    x as u64
}

/// A comparison operand as a `i128`.
pub fn i128_of_operand(x: u64) -> (r: i128)
    ensures
        r == narrow_i128(x),
{
    x as i128
}

/// A `usize` as a comparison operand.
pub open spec fn widen_usize(x: usize) -> u64 {
    x as u64
}

/// A comparison operand as a `usize`: its low bits.
pub open spec fn narrow_usize(x: u64) -> usize {
    x as usize
}

/// A `usize` as a comparison operand.
pub fn operand_of_usize(x: usize) -> (r: u64)
    ensures
        r == widen_usize(x),
{
    x as u64
}

/// A comparison operand as a `usize`.
pub fn usize_of_operand(x: u64) -> (r: usize)
    ensures
        r == narrow_usize(x),
{
    x as usize
}

/// A `isize` as a comparison operand.
pub open spec fn widen_isize(x: isize) -> u64 {
    x as u64
}

/// A comparison operand as a `isize`: its low bits.
pub open spec fn narrow_isize(x: u64) -> isize {
    x as isize
}

/// A `isize` as a comparison operand.
pub fn operand_of_isize(x: isize) -> (r: u64)
    ensures
        r == widen_isize(x),
{
    x as u64
}

/// A comparison operand as a `isize`.
pub fn isize_of_operand(x: u64) -> (r: isize)
    ensures
        r == narrow_isize(x),
{
    x as isize
}

} // verus!

