//! Player state: position, orientation and current sector.
//!
//! An `Angle` is the Build-engine orientation unit: the full circle is
//! split into 2048 steps, only the low 11 bits count, 0 looks along +Y
//! and 512 along +X.

use crate::bytes::{
    spec_u16_le,
    lemma_i16_cast_roundtrip, lemma_i32_cast_roundtrip, lemma_u16_le_roundtrip,
    lemma_u32_le_roundtrip, push_i16, push_i32, spec_i16_le, spec_i32_le, spec_u16_hi, spec_u16_lo,
    spec_u32_byte, spec_u32_le, ByteReader,
};
use crate::Error;
use vstd::prelude::*;

verus! {

/// Orientation in 2048ths of a turn; only the low 11 bits are meaningful.
#[derive(Debug, PartialEq, Eq, Structural, Copy, Clone)]
pub struct Angle {
    pub units: i16,
}

impl Angle {
    /// The angle folded into `[0, 2047]`.
    pub open spec fn spec_masked(self) -> i16 {
        self.units & 0x7ff
    }

    /// The angle folded into `[0, 2047]`.
    pub fn masked(&self) -> (r: u16)
        ensures
            r == self.spec_masked(),
            0 <= r < 2048,
    {
        let m: i16 = self.units & 0x7ff;
        proof {
            assert(forall|x: i16| 0 <= #[trigger] (x & 0x7ff) < 2048) by (bit_vector);
        }
        m as u16
    }
}

/// Law: an angle outside `[0, 2047]` behaves as its masked counterpart;
/// folding is idempotent.
pub proof fn lemma_angle_mask_idempotent(a: i16)
    ensures
        (Angle { units: a & 0x7ff }).spec_masked() == (Angle { units: a }).spec_masked(),
{
    assert((a & 0x7ff) & 0x7ff == a & 0x7ff) by (bit_vector);
}

/// Starting state of the player as stored in a MAP file.
#[derive(Debug, PartialEq, Eq, Structural, Copy, Clone)]
pub struct Player {
    pub pos_x: i32,
    pub pos_y: i32,
    pub pos_z: i32,
    pub angle: Angle,
    pub sector: i16,
}

/// The `Player` record laid out at offset `p` of `b`.
pub open spec fn spec_player_from(b: Seq<u8>, p: int) -> Player {
    Player {
        pos_x: spec_i32_le(b[p], b[p + 1], b[p + 2], b[p + 3]),
        pos_y: spec_i32_le(b[p + 4], b[p + 5], b[p + 6], b[p + 7]),
        pos_z: spec_i32_le(b[p + 8], b[p + 9], b[p + 10], b[p + 11]),
        angle: Angle { units: spec_i16_le(b[p + 12], b[p + 13]) },
        sector: spec_i16_le(b[p + 14], b[p + 15]),
    }
}

/// The 16 bytes that encode `s`.
pub open spec fn spec_player_bytes(s: Player) -> Seq<u8> {
    seq![
        spec_u32_byte(s.pos_x as u32, 0),
        spec_u32_byte(s.pos_x as u32, 1),
        spec_u32_byte(s.pos_x as u32, 2),
        spec_u32_byte(s.pos_x as u32, 3),
        spec_u32_byte(s.pos_y as u32, 0),
        spec_u32_byte(s.pos_y as u32, 1),
        spec_u32_byte(s.pos_y as u32, 2),
        spec_u32_byte(s.pos_y as u32, 3),
        spec_u32_byte(s.pos_z as u32, 0),
        spec_u32_byte(s.pos_z as u32, 1),
        spec_u32_byte(s.pos_z as u32, 2),
        spec_u32_byte(s.pos_z as u32, 3),
        spec_u16_lo(s.angle.units as u16),
        spec_u16_hi(s.angle.units as u16),
        spec_u16_lo(s.sector as u16),
        spec_u16_hi(s.sector as u16),
    ]
}

impl Player {
    /// Decode one record; consumes exactly 16 bytes on success.
    pub fn from_reader(r: &mut ByteReader<'_>) -> (res: Result<Player, Error>)
        requires
            old(r).wf(),
        ensures
            final(r).wf(),
            final(r).bytes@ == old(r).bytes@,
            res is Ok <==> old(r).spec_remaining() >= 16,
            res matches Ok(s) ==> s == spec_player_from(old(r).bytes@, old(r).pos as int)
                && final(r).pos == old(r).pos + 16,
            res is Err ==> res == Err::<Player, Error>(Error::UnexpectedEnd),
    {
        Ok(Player {
            pos_x: r.read_i32()?,
            pos_y: r.read_i32()?,
            pos_z: r.read_i32()?,
            angle: Angle { units: r.read_i16()? },
            sector: r.read_i16()?,
        })
    }

    /// Append this record's 16-byte encoding to `out`.
    pub fn to_bytes(&self, out: &mut Vec<u8>)
        ensures
            final(out)@ == old(out)@ + spec_player_bytes(*self),
    {
        push_i32(out, self.pos_x);
        push_i32(out, self.pos_y);
        push_i32(out, self.pos_z);
        push_i16(out, self.angle.units);
        push_i16(out, self.sector);
        proof {
            assert(final(out)@ =~= old(out)@ + spec_player_bytes(*self));
        }
    }
}

/// Law: re-encoding a decoded `Player` record gives back exactly the
/// 16 bytes it was decoded from.
pub proof fn lemma_player_roundtrip(b: Seq<u8>, p: int)
    requires
        0 <= p && p + 16 <= b.len(),
    ensures
        spec_player_bytes(spec_player_from(b, p)) =~= b.subrange(p, p + 16),
{
    lemma_i32_cast_roundtrip(0, spec_u32_le(b[p], b[p + 1], b[p + 2], b[p + 3]));
    lemma_u32_le_roundtrip(b[p], b[p + 1], b[p + 2], b[p + 3], 0);
    lemma_i32_cast_roundtrip(0, spec_u32_le(b[p + 4], b[p + 5], b[p + 6], b[p + 7]));
    lemma_u32_le_roundtrip(b[p + 4], b[p + 5], b[p + 6], b[p + 7], 0);
    lemma_i32_cast_roundtrip(0, spec_u32_le(b[p + 8], b[p + 9], b[p + 10], b[p + 11]));
    lemma_u32_le_roundtrip(b[p + 8], b[p + 9], b[p + 10], b[p + 11], 0);
    lemma_i16_cast_roundtrip(0, spec_u16_le(b[p + 12], b[p + 13]));
    lemma_u16_le_roundtrip(b[p + 12], b[p + 13], 0);
    lemma_i16_cast_roundtrip(0, spec_u16_le(b[p + 14], b[p + 15]));
    lemma_u16_le_roundtrip(b[p + 14], b[p + 15], 0);
}

} // verus!
