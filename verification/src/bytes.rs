//! Little-endian primitives for the MAP format.
//!
//! A `ByteReader` walks a byte slice and hands out fixed-width integers;
//! the `push_*` helpers write them back. Each direction is specified
//! against the same spec functions, which is what makes the decode/encode
//! round trip provable.

use crate::Error;
use vstd::prelude::*;

verus! {

/// The `u16` stored little-endian in two bytes.
pub open spec fn spec_u16_le(b0: u8, b1: u8) -> u16 {
    (b0 as u16) | ((b1 as u16) << 8u16)
}

/// The `i16` stored little-endian in two bytes.
pub open spec fn spec_i16_le(b0: u8, b1: u8) -> i16 {
    spec_u16_le(b0, b1) as i16
}

/// The `u32` stored little-endian in four bytes.
pub open spec fn spec_u32_le(b0: u8, b1: u8, b2: u8, b3: u8) -> u32 {
    (b0 as u32) | ((b1 as u32) << 8u32) | ((b2 as u32) << 16u32) | ((b3 as u32) << 24u32)
}

/// The `i32` stored little-endian in four bytes.
pub open spec fn spec_i32_le(b0: u8, b1: u8, b2: u8, b3: u8) -> i32 {
    spec_u32_le(b0, b1, b2, b3) as i32
}

/// Low byte of a `u16`.
pub open spec fn spec_u16_lo(v: u16) -> u8 {
    (v & 0xff) as u8
}

/// High byte of a `u16`.
pub open spec fn spec_u16_hi(v: u16) -> u8 {
    (v >> 8u16) as u8
}

/// Byte `k` (0 = lowest) of a `u32`.
pub open spec fn spec_u32_byte(v: u32, k: int) -> u8 {
    if k == 0 {
        (v & 0xff) as u8
    } else if k == 1 {
        ((v >> 8u32) & 0xff) as u8
    } else if k == 2 {
        ((v >> 16u32) & 0xff) as u8
    } else {
        ((v >> 24u32) & 0xff) as u8
    }
}

/// Splitting a `u16` into bytes and reassembling them is the identity, in
/// both directions.
pub proof fn lemma_u16_le_roundtrip(b0: u8, b1: u8, v: u16)
    ensures
        spec_u16_le(spec_u16_lo(v), spec_u16_hi(v)) == v,
        spec_u16_lo(spec_u16_le(b0, b1)) == b0,
        spec_u16_hi(spec_u16_le(b0, b1)) == b1,
{
    assert(((((v & 0xff) as u8) as u16) | ((((v >> 8u16) as u8) as u16) << 8u16)) == v)
        by (bit_vector);
    assert(((((b0 as u16) | ((b1 as u16) << 8u16)) & 0xff) as u8) == b0) by (bit_vector);
    assert(((((b0 as u16) | ((b1 as u16) << 8u16)) >> 8u16) as u8) == b1) by (bit_vector);
}

/// Splitting a `u32` into bytes and reassembling them is the identity, in
/// both directions.
pub proof fn lemma_u32_le_roundtrip(b0: u8, b1: u8, b2: u8, b3: u8, v: u32)
    ensures
        spec_u32_le(spec_u32_byte(v, 0), spec_u32_byte(v, 1), spec_u32_byte(v, 2), spec_u32_byte(v, 3)) == v,
        spec_u32_byte(spec_u32_le(b0, b1, b2, b3), 0) == b0,
        spec_u32_byte(spec_u32_le(b0, b1, b2, b3), 1) == b1,
        spec_u32_byte(spec_u32_le(b0, b1, b2, b3), 2) == b2,
        spec_u32_byte(spec_u32_le(b0, b1, b2, b3), 3) == b3,
{
    assert((((v & 0xff) as u8) as u32) | ((((v >> 8u32) & 0xff) as u8) as u32) << 8u32 | ((((v
        >> 16u32) & 0xff) as u8) as u32) << 16u32 | ((((v >> 24u32) & 0xff) as u8) as u32) << 24u32
        == v) by (bit_vector);
    assert((((b0 as u32) | ((b1 as u32) << 8u32) | ((b2 as u32) << 16u32) | ((b3 as u32) << 24u32))
        & 0xff) as u8 == b0) by (bit_vector);
    assert(((((b0 as u32) | ((b1 as u32) << 8u32) | ((b2 as u32) << 16u32) | ((b3 as u32) << 24u32))
        >> 8u32) & 0xff) as u8 == b1) by (bit_vector);
    assert(((((b0 as u32) | ((b1 as u32) << 8u32) | ((b2 as u32) << 16u32) | ((b3 as u32) << 24u32))
        >> 16u32) & 0xff) as u8 == b2) by (bit_vector);
    assert(((((b0 as u32) | ((b1 as u32) << 8u32) | ((b2 as u32) << 16u32) | ((b3 as u32) << 24u32))
        >> 24u32) & 0xff) as u8 == b3) by (bit_vector);
}

/// Casting between the signed and unsigned view of 16 bits loses nothing.
pub proof fn lemma_i16_cast_roundtrip(v: i16, u: u16)
    ensures
        ((v as u16) as i16) == v,
        ((u as i16) as u16) == u,
{
    assert(forall|x: i16| #[trigger] ((x as u16) as i16) == x) by (bit_vector);
    assert(forall|x: u16| #[trigger] ((x as i16) as u16) == x) by (bit_vector);
}

/// Casting between the signed and unsigned view of 32 bits loses nothing.
pub proof fn lemma_i32_cast_roundtrip(v: i32, u: u32)
    ensures
        ((v as u32) as i32) == v,
        ((u as i32) as u32) == u,
{
    assert(forall|x: i32| #[trigger] ((x as u32) as i32) == x) by (bit_vector);
    assert(forall|x: u32| #[trigger] ((x as i32) as u32) == x) by (bit_vector);
}

/// Casting between the signed and unsigned view of 8 bits loses nothing.
pub proof fn lemma_i8_cast_roundtrip(v: i8, u: u8)
    ensures
        ((v as u8) as i8) == v,
        ((u as i8) as u8) == u,
{
    assert(forall|x: i8| #[trigger] ((x as u8) as i8) == x) by (bit_vector);
    assert(forall|x: u8| #[trigger] ((x as i8) as u8) == x) by (bit_vector);
}

/// Cursor over a byte slice; every `read_*` either consumes exactly the
/// bytes of one value or fails without moving past the end.
pub struct ByteReader<'a> {
    pub bytes: &'a [u8],
    pub pos: usize,
}

impl<'a> ByteReader<'a> {
    pub open spec fn wf(self) -> bool {
        self.pos <= self.bytes@.len()
    }

    /// Bytes not consumed yet.
    pub open spec fn spec_remaining(self) -> int {
        self.bytes@.len() - self.pos
    }

    pub fn new(bytes: &'a [u8]) -> (r: ByteReader<'a>)
        ensures
            r.wf(),
            r.bytes@ == bytes@,
            r.pos == 0,
    {
        ByteReader { bytes, pos: 0 }
    }

    pub fn read_u8(&mut self) -> (r: Result<u8, Error>)
        requires
            old(self).wf(),
        ensures
            final(self).wf(),
            final(self).bytes@ == old(self).bytes@,
            r is Ok <==> old(self).pos + 1 <= old(self).bytes@.len(),
            r matches Ok(v) ==> v == old(self).bytes@[old(self).pos as int] && final(self).pos
                == old(self).pos + 1,
            r is Err ==> *final(self) == *old(self) && r == Err::<u8, Error>(Error::UnexpectedEnd),
    {
        if self.pos < self.bytes.len() {
            let b = self.bytes[self.pos];
            self.pos = self.pos + 1;
            Ok(b)
        } else {
            Err(Error::UnexpectedEnd)
        }
    }

    pub fn read_u16(&mut self) -> (r: Result<u16, Error>)
        requires
            old(self).wf(),
        ensures
            final(self).wf(),
            final(self).bytes@ == old(self).bytes@,
            r is Ok <==> old(self).pos + 2 <= old(self).bytes@.len(),
            r matches Ok(v) ==> v == spec_u16_le(
                old(self).bytes@[old(self).pos as int],
                old(self).bytes@[old(self).pos + 1],
            ) && final(self).pos == old(self).pos + 2,
            r is Err ==> *final(self) == *old(self) && r == Err::<u16, Error>(Error::UnexpectedEnd),
    {
        if self.bytes.len() - self.pos >= 2 {
            let b0 = self.bytes[self.pos];
            let b1 = self.bytes[self.pos + 1];
            self.pos = self.pos + 2;
            Ok((b0 as u16) | ((b1 as u16) << 8u16))
        } else {
            Err(Error::UnexpectedEnd)
        }
    }

    pub fn read_i16(&mut self) -> (r: Result<i16, Error>)
        requires
            old(self).wf(),
        ensures
            final(self).wf(),
            final(self).bytes@ == old(self).bytes@,
            r is Ok <==> old(self).pos + 2 <= old(self).bytes@.len(),
            r matches Ok(v) ==> v == spec_i16_le(
                old(self).bytes@[old(self).pos as int],
                old(self).bytes@[old(self).pos + 1],
            ) && final(self).pos == old(self).pos + 2,
            r is Err ==> *final(self) == *old(self) && r == Err::<i16, Error>(Error::UnexpectedEnd),
    {
        let v = self.read_u16()?;
        Ok(v as i16)
    }

    pub fn read_u32(&mut self) -> (r: Result<u32, Error>)
        requires
            old(self).wf(),
        ensures
            final(self).wf(),
            final(self).bytes@ == old(self).bytes@,
            r is Ok <==> old(self).pos + 4 <= old(self).bytes@.len(),
            r matches Ok(v) ==> v == spec_u32_le(
                old(self).bytes@[old(self).pos as int],
                old(self).bytes@[old(self).pos + 1],
                old(self).bytes@[old(self).pos + 2],
                old(self).bytes@[old(self).pos + 3],
            ) && final(self).pos == old(self).pos + 4,
            r is Err ==> *final(self) == *old(self) && r == Err::<u32, Error>(Error::UnexpectedEnd),
    {
        if self.bytes.len() - self.pos >= 4 {
            let b0 = self.bytes[self.pos];
            let b1 = self.bytes[self.pos + 1];
            let b2 = self.bytes[self.pos + 2];
            let b3 = self.bytes[self.pos + 3];
            self.pos = self.pos + 4;
            Ok((b0 as u32) | ((b1 as u32) << 8u32) | ((b2 as u32) << 16u32) | ((b3 as u32)
                << 24u32))
        } else {
            Err(Error::UnexpectedEnd)
        }
    }

    pub fn read_i32(&mut self) -> (r: Result<i32, Error>)
        requires
            old(self).wf(),
        ensures
            final(self).wf(),
            final(self).bytes@ == old(self).bytes@,
            r is Ok <==> old(self).pos + 4 <= old(self).bytes@.len(),
            r matches Ok(v) ==> v == spec_i32_le(
                old(self).bytes@[old(self).pos as int],
                old(self).bytes@[old(self).pos + 1],
                old(self).bytes@[old(self).pos + 2],
                old(self).bytes@[old(self).pos + 3],
            ) && final(self).pos == old(self).pos + 4,
            r is Err ==> *final(self) == *old(self) && r == Err::<i32, Error>(Error::UnexpectedEnd),
    {
        let v = self.read_u32()?;
        Ok(v as i32)
    }

    pub fn read_i8(&mut self) -> (r: Result<i8, Error>)
        requires
            old(self).wf(),
        ensures
            final(self).wf(),
            final(self).bytes@ == old(self).bytes@,
            r is Ok <==> old(self).pos + 1 <= old(self).bytes@.len(),
            r matches Ok(v) ==> v == old(self).bytes@[old(self).pos as int] as i8
                && final(self).pos == old(self).pos + 1,
            r is Err ==> *final(self) == *old(self) && r == Err::<i8, Error>(Error::UnexpectedEnd),
    {
        let v = self.read_u8()?;
        Ok(v as i8)
    }
}

/// Append the two little-endian bytes of a `u16`.
pub fn push_u16(out: &mut Vec<u8>, v: u16)
    ensures
        final(out)@ == old(out)@ + seq![spec_u16_lo(v), spec_u16_hi(v)],
{
    out.push((v & 0xff) as u8);
    out.push((v >> 8u16) as u8);
    proof {
        assert(final(out)@ =~= old(out)@ + seq![spec_u16_lo(v), spec_u16_hi(v)]);
    }
}

/// Append the two little-endian bytes of an `i16`.
pub fn push_i16(out: &mut Vec<u8>, v: i16)
    ensures
        final(out)@ == old(out)@ + seq![spec_u16_lo(v as u16), spec_u16_hi(v as u16)],
{
    push_u16(out, v as u16);
}

/// Append the four little-endian bytes of a `u32`.
pub fn push_u32(out: &mut Vec<u8>, v: u32)
    ensures
        final(out)@ == old(out)@ + seq![
            spec_u32_byte(v, 0),
            spec_u32_byte(v, 1),
            spec_u32_byte(v, 2),
            spec_u32_byte(v, 3),
        ],
{
    out.push((v & 0xff) as u8);
    out.push(((v >> 8u32) & 0xff) as u8);
    out.push(((v >> 16u32) & 0xff) as u8);
    out.push(((v >> 24u32) & 0xff) as u8);
    proof {
        assert(final(out)@ =~= old(out)@ + seq![
            spec_u32_byte(v, 0),
            spec_u32_byte(v, 1),
            spec_u32_byte(v, 2),
            spec_u32_byte(v, 3),
        ]);
    }
}

/// Append the four little-endian bytes of an `i32`.
pub fn push_i32(out: &mut Vec<u8>, v: i32)
    ensures
        final(out)@ == old(out)@ + seq![
            spec_u32_byte(v as u32, 0),
            spec_u32_byte(v as u32, 1),
            spec_u32_byte(v as u32, 2),
            spec_u32_byte(v as u32, 3),
        ],
{
    push_u32(out, v as u32);
}

/// Append the byte of a `u8`.
pub fn push_u8(out: &mut Vec<u8>, v: u8)
    ensures
        final(out)@ == old(out)@ + seq![v],
{
    out.push(v);
    proof {
        assert(final(out)@ =~= old(out)@ + seq![v]);
    }
}

/// Append the byte of an `i8`.
pub fn push_i8(out: &mut Vec<u8>, v: i8)
    ensures
        final(out)@ == old(out)@ + seq![v as u8],
{
    out.push(v as u8);
    proof {
        assert(final(out)@ =~= old(out)@ + seq![v as u8]);
    }
}

} // verus!
