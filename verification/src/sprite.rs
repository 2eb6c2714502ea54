//! Sprites: free-standing objects placed in sectors.

use crate::bytes::{
    lemma_i16_cast_roundtrip, lemma_i32_cast_roundtrip, lemma_i8_cast_roundtrip,
    lemma_u16_le_roundtrip, lemma_u32_le_roundtrip, push_i16, push_i32, push_i8, push_u16, push_u8,
    spec_i16_le, spec_i32_le, spec_u16_hi, spec_u16_le, spec_u16_lo, spec_u32_byte, spec_u32_le,
    ByteReader,
};
use crate::Error;
use vstd::prelude::*;

verus! {

/// Raw sprite status bits; bits 4 and 5 select the sprite type.
#[derive(Debug, PartialEq, Eq, Structural, Copy, Clone)]
pub struct SpriteStat {
    pub bits: u16,
}

/// How a sprite is oriented in the world.
#[derive(Debug, PartialEq, Eq, Structural, Copy, Clone)]
pub enum SpriteType {
    /// Always faces the camera.
    Face,
    /// Oriented like a wall.
    Wall,
    /// Flat on the floor.
    Floor,
}

/// An object placed in the world.
#[derive(Debug, PartialEq, Eq, Structural, Copy, Clone)]
pub struct Sprite {
    pub x: i32,
    pub y: i32,
    pub z: i32,
    pub sprite_stat: SpriteStat,
    pub picnum: i16,
    pub shade: i8,
    pub pal: u8,
    pub clip_dist: u8,
    pub filler: u8,
    pub x_repeat: u8,
    pub y_repeat: u8,
    pub x_offset: u8,
    pub y_offset: u8,
    pub sectnum: i16,
    pub statnum: i16,
    pub angle: i16,
    pub owner: i16,
    pub x_vel: i16,
    pub y_vel: i16,
    pub z_vel: i16,
    pub lotag: i16,
    pub hitag: i16,
    pub extra: i16,
}

/// The type selector stored in bits 4 and 5 of the sprite status word.
pub open spec fn spec_sprite_type_bits(stat: SpriteStat) -> u16 {
    (stat.bits >> 4u16) & 3
}

impl Sprite {
    /// The sprite's orientation kind. The bit pattern `0b11` is reserved
    /// and has no `SpriteType`, so callers must rule it out first.
    pub fn sprite_type(&self) -> (r: SpriteType)
        requires
            spec_sprite_type_bits(self.sprite_stat) != 3,
        ensures
            r == (if spec_sprite_type_bits(self.sprite_stat) == 0 {
                SpriteType::Face
            } else if spec_sprite_type_bits(self.sprite_stat) == 1 {
                SpriteType::Wall
            } else {
                SpriteType::Floor
            }),
    {
        let stat = (self.sprite_stat.bits >> 4u16) & 3;
        if stat == 0 {
            SpriteType::Face
        } else if stat == 1 {
            SpriteType::Wall
        } else {
            SpriteType::Floor
        }
    }
}

/// The `Sprite` record laid out at offset `p` of `b`.
pub open spec fn spec_sprite_from(b: Seq<u8>, p: int) -> Sprite {
    Sprite {
        x: spec_i32_le(b[p], b[p + 1], b[p + 2], b[p + 3]),
        y: spec_i32_le(b[p + 4], b[p + 5], b[p + 6], b[p + 7]),
        z: spec_i32_le(b[p + 8], b[p + 9], b[p + 10], b[p + 11]),
        sprite_stat: SpriteStat { bits: spec_u16_le(b[p + 12], b[p + 13]) },
        picnum: spec_i16_le(b[p + 14], b[p + 15]),
        shade: b[p + 16] as i8,
        pal: b[p + 17],
        clip_dist: b[p + 18],
        filler: b[p + 19],
        x_repeat: b[p + 20],
        y_repeat: b[p + 21],
        x_offset: b[p + 22],
        y_offset: b[p + 23],
        sectnum: spec_i16_le(b[p + 24], b[p + 25]),
        statnum: spec_i16_le(b[p + 26], b[p + 27]),
        angle: spec_i16_le(b[p + 28], b[p + 29]),
        owner: spec_i16_le(b[p + 30], b[p + 31]),
        x_vel: spec_i16_le(b[p + 32], b[p + 33]),
        y_vel: spec_i16_le(b[p + 34], b[p + 35]),
        z_vel: spec_i16_le(b[p + 36], b[p + 37]),
        lotag: spec_i16_le(b[p + 38], b[p + 39]),
        hitag: spec_i16_le(b[p + 40], b[p + 41]),
        extra: spec_i16_le(b[p + 42], b[p + 43]),
    }
}

/// The 44 bytes that encode `s`.
pub open spec fn spec_sprite_bytes(s: Sprite) -> Seq<u8> {
    seq![
        spec_u32_byte(s.x as u32, 0),
        spec_u32_byte(s.x as u32, 1),
        spec_u32_byte(s.x as u32, 2),
        spec_u32_byte(s.x as u32, 3),
        spec_u32_byte(s.y as u32, 0),
        spec_u32_byte(s.y as u32, 1),
        spec_u32_byte(s.y as u32, 2),
        spec_u32_byte(s.y as u32, 3),
        spec_u32_byte(s.z as u32, 0),
        spec_u32_byte(s.z as u32, 1),
        spec_u32_byte(s.z as u32, 2),
        spec_u32_byte(s.z as u32, 3),
        spec_u16_lo(s.sprite_stat.bits),
        spec_u16_hi(s.sprite_stat.bits),
        spec_u16_lo(s.picnum as u16),
        spec_u16_hi(s.picnum as u16),
        s.shade as u8,
        s.pal,
        s.clip_dist,
        s.filler,
        s.x_repeat,
        s.y_repeat,
        s.x_offset,
        s.y_offset,
        spec_u16_lo(s.sectnum as u16),
        spec_u16_hi(s.sectnum as u16),
        spec_u16_lo(s.statnum as u16),
        spec_u16_hi(s.statnum as u16),
        spec_u16_lo(s.angle as u16),
        spec_u16_hi(s.angle as u16),
        spec_u16_lo(s.owner as u16),
        spec_u16_hi(s.owner as u16),
        spec_u16_lo(s.x_vel as u16),
        spec_u16_hi(s.x_vel as u16),
        spec_u16_lo(s.y_vel as u16),
        spec_u16_hi(s.y_vel as u16),
        spec_u16_lo(s.z_vel as u16),
        spec_u16_hi(s.z_vel as u16),
        spec_u16_lo(s.lotag as u16),
        spec_u16_hi(s.lotag as u16),
        spec_u16_lo(s.hitag as u16),
        spec_u16_hi(s.hitag as u16),
        spec_u16_lo(s.extra as u16),
        spec_u16_hi(s.extra as u16),
    ]
}

impl Sprite {
    /// Decode one record; consumes exactly 44 bytes on success.
    pub fn from_reader(r: &mut ByteReader<'_>) -> (res: Result<Sprite, Error>)
        requires
            old(r).wf(),
        ensures
            final(r).wf(),
            final(r).bytes@ == old(r).bytes@,
            res is Ok <==> old(r).spec_remaining() >= 44,
            res matches Ok(s) ==> s == spec_sprite_from(old(r).bytes@, old(r).pos as int)
                && final(r).pos == old(r).pos + 44,
            res is Err ==> res == Err::<Sprite, Error>(Error::UnexpectedEnd),
    {
        Ok(Sprite {
            x: r.read_i32()?,
            y: r.read_i32()?,
            z: r.read_i32()?,
            sprite_stat: SpriteStat { bits: r.read_u16()? },
            picnum: r.read_i16()?,
            shade: r.read_i8()?,
            pal: r.read_u8()?,
            clip_dist: r.read_u8()?,
            filler: r.read_u8()?,
            x_repeat: r.read_u8()?,
            y_repeat: r.read_u8()?,
            x_offset: r.read_u8()?,
            y_offset: r.read_u8()?,
            sectnum: r.read_i16()?,
            statnum: r.read_i16()?,
            angle: r.read_i16()?,
            owner: r.read_i16()?,
            x_vel: r.read_i16()?,
            y_vel: r.read_i16()?,
            z_vel: r.read_i16()?,
            lotag: r.read_i16()?,
            hitag: r.read_i16()?,
            extra: r.read_i16()?,
        })
    }

    /// Append this record's 44-byte encoding to `out`.
    pub fn to_bytes(&self, out: &mut Vec<u8>)
        ensures
            final(out)@ == old(out)@ + spec_sprite_bytes(*self),
    {
        push_i32(out, self.x);
        push_i32(out, self.y);
        push_i32(out, self.z);
        push_u16(out, self.sprite_stat.bits);
        push_i16(out, self.picnum);
        push_i8(out, self.shade);
        push_u8(out, self.pal);
        push_u8(out, self.clip_dist);
        push_u8(out, self.filler);
        push_u8(out, self.x_repeat);
        push_u8(out, self.y_repeat);
        push_u8(out, self.x_offset);
        push_u8(out, self.y_offset);
        push_i16(out, self.sectnum);
        push_i16(out, self.statnum);
        push_i16(out, self.angle);
        push_i16(out, self.owner);
        push_i16(out, self.x_vel);
        push_i16(out, self.y_vel);
        push_i16(out, self.z_vel);
        push_i16(out, self.lotag);
        push_i16(out, self.hitag);
        push_i16(out, self.extra);
        proof {
            assert(final(out)@ =~= old(out)@ + spec_sprite_bytes(*self));
        }
    }
}

/// Law: re-encoding a decoded `Sprite` record gives back exactly the
/// 44 bytes it was decoded from.
pub proof fn lemma_sprite_roundtrip(b: Seq<u8>, p: int)
    requires
        0 <= p && p + 44 <= b.len(),
    ensures
        spec_sprite_bytes(spec_sprite_from(b, p)) =~= b.subrange(p, p + 44),
{
    lemma_i32_cast_roundtrip(0, spec_u32_le(b[p], b[p + 1], b[p + 2], b[p + 3]));
    lemma_u32_le_roundtrip(b[p], b[p + 1], b[p + 2], b[p + 3], 0);
    lemma_i32_cast_roundtrip(0, spec_u32_le(b[p + 4], b[p + 5], b[p + 6], b[p + 7]));
    lemma_u32_le_roundtrip(b[p + 4], b[p + 5], b[p + 6], b[p + 7], 0);
    lemma_i32_cast_roundtrip(0, spec_u32_le(b[p + 8], b[p + 9], b[p + 10], b[p + 11]));
    lemma_u32_le_roundtrip(b[p + 8], b[p + 9], b[p + 10], b[p + 11], 0);
    lemma_u16_le_roundtrip(b[p + 12], b[p + 13], 0);
    lemma_i16_cast_roundtrip(0, spec_u16_le(b[p + 14], b[p + 15]));
    lemma_u16_le_roundtrip(b[p + 14], b[p + 15], 0);
    lemma_i8_cast_roundtrip(0, b[p + 16]);
    lemma_i16_cast_roundtrip(0, spec_u16_le(b[p + 24], b[p + 25]));
    lemma_u16_le_roundtrip(b[p + 24], b[p + 25], 0);
    lemma_i16_cast_roundtrip(0, spec_u16_le(b[p + 26], b[p + 27]));
    lemma_u16_le_roundtrip(b[p + 26], b[p + 27], 0);
    lemma_i16_cast_roundtrip(0, spec_u16_le(b[p + 28], b[p + 29]));
    lemma_u16_le_roundtrip(b[p + 28], b[p + 29], 0);
    lemma_i16_cast_roundtrip(0, spec_u16_le(b[p + 30], b[p + 31]));
    lemma_u16_le_roundtrip(b[p + 30], b[p + 31], 0);
    lemma_i16_cast_roundtrip(0, spec_u16_le(b[p + 32], b[p + 33]));
    lemma_u16_le_roundtrip(b[p + 32], b[p + 33], 0);
    lemma_i16_cast_roundtrip(0, spec_u16_le(b[p + 34], b[p + 35]));
    lemma_u16_le_roundtrip(b[p + 34], b[p + 35], 0);
    lemma_i16_cast_roundtrip(0, spec_u16_le(b[p + 36], b[p + 37]));
    lemma_u16_le_roundtrip(b[p + 36], b[p + 37], 0);
    lemma_i16_cast_roundtrip(0, spec_u16_le(b[p + 38], b[p + 39]));
    lemma_u16_le_roundtrip(b[p + 38], b[p + 39], 0);
    lemma_i16_cast_roundtrip(0, spec_u16_le(b[p + 40], b[p + 41]));
    lemma_u16_le_roundtrip(b[p + 40], b[p + 41], 0);
    lemma_i16_cast_roundtrip(0, spec_u16_le(b[p + 42], b[p + 43]));
    lemma_u16_le_roundtrip(b[p + 42], b[p + 43], 0);
}

/// Decode a sprite list: a `u16` count followed by that many records.
pub fn from_reader(r: &mut ByteReader<'_>) -> (res: Result<Vec<Sprite>, Error>)
    requires
        old(r).wf(),
    ensures
        final(r).wf(),
        final(r).bytes@ == old(r).bytes@,
        res matches Ok(v) ==> {
            &&& old(r).spec_remaining() >= 2
            &&& v@.len() == spec_u16_le(
                old(r).bytes@[old(r).pos as int],
                old(r).bytes@[old(r).pos + 1],
            )
            &&& final(r).pos == old(r).pos + 2 + 44 * v@.len()
            &&& forall|i: int|
                0 <= i < v@.len() ==> v@[i] == spec_sprite_from(
                    old(r).bytes@,
                    old(r).pos + 2 + 44 * i,
                )
        },
        res is Ok <==> old(r).spec_remaining() >= 2 && old(r).spec_remaining() >= 2 + 44
            * spec_u16_le(old(r).bytes@[old(r).pos as int], old(r).bytes@[old(r).pos + 1]),
        res is Err ==> res == Err::<Vec<Sprite>, Error>(Error::UnexpectedEnd),
{
    let count = r.read_u16()?;
    let n = count as usize;
    let mut out: Vec<Sprite> = Vec::new();
    let mut i: usize = 0;
    let ghost base = r.pos as int;
    while i < n
        invariant
            r.wf(),
            r.bytes@ == old(r).bytes@,
            n == spec_u16_le(old(r).bytes@[old(r).pos as int], old(r).bytes@[old(r).pos + 1]),
            base == old(r).pos + 2,
            old(r).pos + 2 <= old(r).bytes@.len(),
            i <= n,
            out@.len() == i,
            r.pos == base + 44 * i,
            base + 44 * i <= r.bytes@.len(),
            forall|j: int| 0 <= j < i ==> out@[j] == spec_sprite_from(r.bytes@, base + 44 * j),
        decreases n - i,
    {
        let s = match Sprite::from_reader(r) {
            Ok(s) => s,
            Err(e) => {
                proof {
                    assert(44 * (i + 1) <= 44 * n);
                    assert(old(r).spec_remaining() < 2 + 44 * n);
                }
                return Err(e);
            },
        };
        out.push(s);
        i = i + 1;
    }
    Ok(out)
}

} // verus!
