//! The primitive types that a slave can expose, and the decoded form in
//! which the master hands values out.
use crate::common::bitfield::{byte_of, le_bytes};
use crate::common::DataGenericType;
use vstd::prelude::*;

verus! {

/// The value of two little-endian bytes.
pub open spec fn le_value2(b0: u8, b1: u8) -> int {
    b0 + 256 * b1
}

/// The value of four little-endian bytes.
pub open spec fn le_value4(b0: u8, b1: u8, b2: u8, b3: u8) -> int {
    b0 + 256 * b1 + 65536 * b2 + 16777216 * b3
}

/// `u16::from_le_bytes` of two bytes.
pub fn u16_from_le(b0: u8, b1: u8) -> (r: u16)
    ensures
        r == le_value2(b0, b1),
{
    let r: u16 = (b0 as u16) | ((b1 as u16) << 8u16);
    assert(r == b0 + 256 * b1) by (bit_vector)
        requires
            r == (b0 as u16) | ((b1 as u16) << 8u16),
    ;
    r
}

/// `u32::from_le_bytes` of four bytes.
pub fn u32_from_le(b0: u8, b1: u8, b2: u8, b3: u8) -> (r: u32)
    ensures
        r == le_value4(b0, b1, b2, b3),
{
    let r: u32 = (b0 as u32) | ((b1 as u32) << 8u32) | ((b2 as u32) << 16u32) | ((b3 as u32)
        << 24u32);
    assert(r == b0 + 256 * b1 + 65536 * b2 + 16777216 * b3) by (bit_vector)
        requires
            r == (b0 as u32) | ((b1 as u32) << 8u32) | ((b2 as u32) << 16u32) | ((b3 as u32)
                << 24u32),
    ;
    r
}

/// A primitive type whose variables a slave can expose on the bus.
pub trait DpsType: Sized {
    /// The generic kind of the type.
    spec fn spec_category() -> DataGenericType;

    /// The size of the type in bytes.
    spec fn spec_size() -> nat;

    /// The value whose little-endian representation is `data`.
    spec fn spec_from_le(data: Seq<u8>) -> Self;

    fn get_type_category(&self) -> (r: DataGenericType)
        ensures
            r == Self::spec_category(),
    ;

    /// The size of the type in bytes.
    fn get_type_size(&self) -> (r: usize)
        ensures
            r == Self::spec_size(),
    ;

    /// Overwrites the value with the little-endian bytes `data`, which must
    /// be exactly as many as the type has; otherwise the value stays.
    fn update(&mut self, data: &[u8]) -> (r: Result<(), &'static str>)
        ensures
            data@.len() == Self::spec_size() ==> r is Ok && *final(self) == Self::spec_from_le(
                data@,
            ),
            data@.len() != Self::spec_size() ==> (r matches Err(e) && e@ == "array too big"@)
                && *final(self) == *old(self),
    ;
}

impl DpsType for u8 {
    open spec fn spec_category() -> DataGenericType {
        DataGenericType::Unsigned
    }

    open spec fn spec_size() -> nat {
        1
    }

    open spec fn spec_from_le(data: Seq<u8>) -> u8 {
        data[0]
    }

    fn get_type_category(&self) -> (r: DataGenericType) {
        DataGenericType::Unsigned
    }

    fn get_type_size(&self) -> (r: usize) {
        1
    }

    fn update(&mut self, data: &[u8]) -> (r: Result<(), &'static str>) {
        if data.len() == 1 {
            *self = data[0];
            Ok(())
        } else {
            Err("array too big")
        }
    }
}

impl DpsType for u16 {
    open spec fn spec_category() -> DataGenericType {
        DataGenericType::Unsigned
    }

    open spec fn spec_size() -> nat {
        2
    }

    open spec fn spec_from_le(data: Seq<u8>) -> u16 {
        le_value2(data[0], data[1]) as u16
    }

    fn get_type_category(&self) -> (r: DataGenericType) {
        DataGenericType::Unsigned
    }

    fn get_type_size(&self) -> (r: usize) {
        2
    }

    fn update(&mut self, data: &[u8]) -> (r: Result<(), &'static str>) {
        if data.len() == 2 {
            *self = u16_from_le(data[0], data[1]);
            Ok(())
        } else {
            Err("array too big")
        }
    }
}

impl DpsType for u32 {
    open spec fn spec_category() -> DataGenericType {
        DataGenericType::Unsigned
    }

    open spec fn spec_size() -> nat {
        4
    }

    open spec fn spec_from_le(data: Seq<u8>) -> u32 {
        le_value4(data[0], data[1], data[2], data[3]) as u32
    }

    fn get_type_category(&self) -> (r: DataGenericType) {
        DataGenericType::Unsigned
    }

    fn get_type_size(&self) -> (r: usize) {
        4
    }

    fn update(&mut self, data: &[u8]) -> (r: Result<(), &'static str>) {
        if data.len() == 4 {
            *self = u32_from_le(data[0], data[1], data[2], data[3]);
            Ok(())
        } else {
            Err("array too big")
        }
    }
}

impl DpsType for i8 {
    open spec fn spec_category() -> DataGenericType {
        DataGenericType::Signed
    }

    open spec fn spec_size() -> nat {
        1
    }

    open spec fn spec_from_le(data: Seq<u8>) -> i8 {
        data[0] as i8
    }

    fn get_type_category(&self) -> (r: DataGenericType) {
        DataGenericType::Signed
    }

    fn get_type_size(&self) -> (r: usize) {
        1
    }

    fn update(&mut self, data: &[u8]) -> (r: Result<(), &'static str>) {
        if data.len() == 1 {
            *self = data[0] as i8;
            Ok(())
        } else {
            Err("array too big")
        }
    }
}

impl DpsType for i16 {
    open spec fn spec_category() -> DataGenericType {
        DataGenericType::Signed
    }

    open spec fn spec_size() -> nat {
        2
    }

    open spec fn spec_from_le(data: Seq<u8>) -> i16 {
        le_value2(data[0], data[1]) as i16
    }

    fn get_type_category(&self) -> (r: DataGenericType) {
        DataGenericType::Signed
    }

    fn get_type_size(&self) -> (r: usize) {
        2
    }

    fn update(&mut self, data: &[u8]) -> (r: Result<(), &'static str>) {
        if data.len() == 2 {
            *self = u16_from_le(data[0], data[1]) as i16;
            Ok(())
        } else {
            Err("array too big")
        }
    }
}

impl DpsType for i32 {
    open spec fn spec_category() -> DataGenericType {
        DataGenericType::Signed
    }

    open spec fn spec_size() -> nat {
        4
    }

    open spec fn spec_from_le(data: Seq<u8>) -> i32 {
        le_value4(data[0], data[1], data[2], data[3]) as i32
    }

    fn get_type_category(&self) -> (r: DataGenericType) {
        DataGenericType::Signed
    }

    fn get_type_size(&self) -> (r: usize) {
        4
    }

    fn update(&mut self, data: &[u8]) -> (r: Result<(), &'static str>) {
        if data.len() == 4 {
            *self = u32_from_le(data[0], data[1], data[2], data[3]) as i32;
            Ok(())
        } else {
            Err("array too big")
        }
    }
}

/// A variable value as the master decodes it from the four value bytes it
/// stores.  A 32-bit float is kept as its bit pattern.
#[derive(Debug, Clone, Copy, PartialEq, Eq, Structural)]
pub enum DpsValue {
    U8(u8),
    U16(u16),
    U32(u32),
    I8(i8),
    I16(i16),
    I32(i32),
    F32Bits(u32),
}

/// Law: a 32-bit variable updated with the four little-endian bytes of a
/// value holds that value, read as unsigned or as signed.
pub proof fn lemma_update_le_bytes_32(x: u32)
    ensures
        <u32 as DpsType>::spec_from_le(le_bytes(x as u64).take(4)) == x,
        <i32 as DpsType>::spec_from_le(le_bytes(x as u64).take(4)) == x as i32,
{
    let w = x as u64;
    let d = le_bytes(w).take(4);
    assert(d[0] == byte_of(w, 0) && d[1] == byte_of(w, 1) && d[2] == byte_of(w, 2) && d[3]
        == byte_of(w, 3));
    let (b0, b1, b2, b3) = (byte_of(w, 0), byte_of(w, 1), byte_of(w, 2), byte_of(w, 3));
    assert(le_value4(b0, b1, b2, b3) == x) by (bit_vector)
        requires
            w == x as u64,
            b0 == byte_of(w, 0),
            b1 == byte_of(w, 1),
            b2 == byte_of(w, 2),
            b3 == byte_of(w, 3),
    ;
}

/// Law: a 16-bit variable updated with two bytes holds the value whose
/// little-endian bytes they are: the low byte first, the high byte worth
/// 256 times as much, read as unsigned or as signed (two's complement).
pub proof fn lemma_update_bytes_16(b0: u8, b1: u8)
    ensures
        <u16 as DpsType>::spec_from_le(seq![b0, b1]) == b0 + 256 * b1,
        <i16 as DpsType>::spec_from_le(seq![b0, b1]) == (b0 + 256 * b1) as i16,
        <i16 as DpsType>::spec_from_le(seq![b0, b1]) == if b1 < 128 {
            b0 + 256 * b1
        } else {
            b0 + 256 * b1 - 65536
        },
{
    let v: int = b0 + 256 * b1;
    assert(0 <= v < 65536);
    let r: i16 = (b0 + 256 * b1) as i16;
    assert(r == if b1 < 128 { b0 + 256 * b1 } else { b0 + 256 * b1 - 65536 }) by (bit_vector)
        requires
            r == (b0 + 256 * b1) as i16,
    ;
}

/// Law: a 16-bit variable updated with the two little-endian bytes of a
/// value holds that value, unsigned or signed.
pub proof fn lemma_update_le_bytes_16(x: u16, y: i16)
    ensures
        <u16 as DpsType>::spec_from_le(le_bytes(x as u64).take(2)) == x,
        <i16 as DpsType>::spec_from_le(le_bytes(y as u16 as u64).take(2)) == y,
{
    let w = x as u64;
    let d = le_bytes(w).take(2);
    assert(d[0] == byte_of(w, 0) && d[1] == byte_of(w, 1));
    let (b0, b1) = (byte_of(w, 0), byte_of(w, 1));
    assert(le_value2(b0, b1) == x) by (bit_vector)
        requires
            w == x as u64,
            b0 == byte_of(w, 0),
            b1 == byte_of(w, 1),
    ;
    let u = y as u16 as u64;
    let e = le_bytes(u).take(2);
    assert(e[0] == byte_of(u, 0) && e[1] == byte_of(u, 1));
    let (c0, c1) = (byte_of(u, 0), byte_of(u, 1));
    assert(le_value2(c0, c1) as i16 == y) by (bit_vector)
        requires
            u == y as u16 as u64,
            c0 == byte_of(u, 0),
            c1 == byte_of(u, 1),
    ;
}

/// Law: an 8-bit variable updated with one byte holds that byte, read as
/// unsigned or as signed (two's complement).
pub proof fn lemma_update_bytes_8(b0: u8)
    ensures
        <u8 as DpsType>::spec_from_le(seq![b0]) == b0,
        <i8 as DpsType>::spec_from_le(seq![b0]) == if b0 < 128 {
            b0 as int
        } else {
            b0 - 256
        },
{
    let r: i8 = b0 as i8;
    assert(r == if b0 < 128 { b0 as int } else { b0 - 256 }) by (bit_vector)
        requires
            r == b0 as i8,
    ;
}

/// Law: a 32-bit variable updated with four bytes holds the value whose
/// little-endian bytes they are.
pub proof fn lemma_update_bytes_32(b0: u8, b1: u8, b2: u8, b3: u8)
    ensures
        <u32 as DpsType>::spec_from_le(seq![b0, b1, b2, b3]) == b0 + 256 * b1 + 65536 * b2
            + 16777216 * b3,
        <i32 as DpsType>::spec_from_le(seq![b0, b1, b2, b3]) == if b3 < 128 {
            b0 + 256 * b1 + 65536 * b2 + 16777216 * b3
        } else {
            b0 + 256 * b1 + 65536 * b2 + 16777216 * b3 - 0x1_0000_0000
        },
{
    let r: i32 = (b0 + 256 * b1 + 65536 * b2 + 16777216 * b3) as i32;
    assert(r == if b3 < 128 {
        b0 + 256 * b1 + 65536 * b2 + 16777216 * b3
    } else {
        b0 + 256 * b1 + 65536 * b2 + 16777216 * b3 - 0x1_0000_0000
    }) by (bit_vector)
        requires
            r == (b0 + 256 * b1 + 65536 * b2 + 16777216 * b3) as i32,
    ;
}

} // verus!
