//! Parsing and software rendering of *Build-engine* sector/portal levels.
//!
//! The crate decodes the classic MAP format (versions 7 to 9) into plain
//! data structures, and renders the sector graph from a first-person
//! viewpoint into a fixed-size framebuffer using integer-only fixed-point
//! arithmetic. Per-column interval coverage guarantees each pixel is
//! painted at most once and bounds the portal traversal.

use vstd::prelude::*;

mod bytes;
mod coverage;
mod interval;
pub mod player;
pub mod sector;
pub mod sprite;
pub mod controller;
pub mod d3;
pub mod frame;
pub mod trig;

pub use coverage::Coverage;
pub use interval::Interval;

pub use bytes::ByteReader;
pub use controller::UpdateOpts;
pub use player::{Angle, Player};
pub use sector::{Sector, SectorId, SectorWalls, Sectors, Wall};
pub use sprite::{Sprite, SpriteType};

use crate::bytes::{
    lemma_i32_cast_roundtrip, lemma_u16_le_roundtrip, lemma_u32_le_roundtrip, push_i32, push_u16,
    spec_i32_le, spec_u16_hi, spec_u16_le, spec_u16_lo, spec_u32_byte, spec_u32_le,
};
use crate::player::{lemma_player_roundtrip, spec_player_bytes, spec_player_from};
use crate::sector::{
    lemma_sector_roundtrip, lemma_wall_roundtrip, spec_sector_bytes, spec_sector_from,
    spec_wall_bytes, spec_wall_from,
};
use crate::sprite::{lemma_sprite_roundtrip, spec_sprite_bytes, spec_sprite_from};

verus! {

/// Why decoding a MAP byte stream failed.
#[derive(Debug, PartialEq, Eq, Structural, Copy, Clone)]
pub enum Error {
    /// The version word is not one of the accepted dialects (7, 8 or 9).
    UnsupportedVersion(i32),
    /// The stream ended before the structure it promised was complete.
    UnexpectedEnd,
}

/// The version word at the head of a MAP byte stream.
pub open spec fn spec_version(b: Seq<u8>) -> i32 {
    spec_i32_le(b[0], b[1], b[2], b[3])
}

/// The dialects this decoder accepts; 8 and 9 share the layout of 7.
pub open spec fn spec_version_ok(v: i32) -> bool {
    v == 7 || v == 8 || v == 9
}

/// Sector count at its fixed offset behind version and player.
pub open spec fn spec_num_sectors(b: Seq<u8>) -> u16 {
    spec_u16_le(b[20], b[21])
}

/// Offset of the wall count.
pub open spec fn spec_walls_off(b: Seq<u8>) -> int {
    22 + 40 * spec_num_sectors(b)
}

/// Wall count.
pub open spec fn spec_num_walls(b: Seq<u8>) -> u16 {
    spec_u16_le(b[spec_walls_off(b)], b[spec_walls_off(b) + 1])
}

/// Offset of the sprite count.
pub open spec fn spec_sprites_off(b: Seq<u8>) -> int {
    spec_walls_off(b) + 2 + 32 * spec_num_walls(b)
}

/// Sprite count.
pub open spec fn spec_num_sprites(b: Seq<u8>) -> u16 {
    spec_u16_le(b[spec_sprites_off(b)], b[spec_sprites_off(b) + 1])
}

/// Total number of bytes the MAP structure occupies.
pub open spec fn spec_map_len(b: Seq<u8>) -> int {
    spec_sprites_off(b) + 2 + 44 * spec_num_sprites(b)
}

/// The stream is long enough for everything its own counts promise, and
/// its version is accepted.
pub open spec fn spec_map_ok(b: Seq<u8>) -> bool {
    &&& b.len() >= 4
    &&& spec_version_ok(spec_version(b))
    &&& b.len() >= 22
    &&& b.len() >= spec_walls_off(b) + 2
    &&& b.len() >= spec_sprites_off(b) + 2
    &&& b.len() >= spec_map_len(b)
}

/// A decoded level: version, player start, geometry and sprites.
#[derive(Debug)]
pub struct Level {
    /// MAP file version.
    pub version: i32,
    /// Player starting information.
    pub player: Player,
    /// Level geometry.
    pub sectors: Sectors,
    /// Objects placed in the level.
    pub sprites: Vec<Sprite>,
}

impl Level {
    /// The decoded `Level` is exactly what the byte stream spells out.
    pub open spec fn spec_decoded_from(self, b: Seq<u8>) -> bool {
        &&& self.version == spec_version(b)
        &&& self.player == spec_player_from(b, 4)
        &&& self.sectors.sectors@.len() == spec_num_sectors(b)
        &&& forall|i: int|
            0 <= i < spec_num_sectors(b) ==> self.sectors.sectors@[i] == spec_sector_from(
                b,
                22 + 40 * i,
            )
        &&& self.sectors.walls@.len() == spec_num_walls(b)
        &&& forall|i: int|
            0 <= i < spec_num_walls(b) ==> self.sectors.walls@[i] == spec_wall_from(
                b,
                spec_walls_off(b) + 2 + 32 * i,
            )
        &&& self.sprites@.len() == spec_num_sprites(b)
        &&& forall|i: int|
            0 <= i < spec_num_sprites(b) ==> self.sprites@[i] == spec_sprite_from(
                b,
                spec_sprites_off(b) + 2 + 44 * i,
            )
    }

    /// Decode a MAP stream. Succeeds exactly when the version word is an
    /// accepted dialect and the stream holds every record its own counts
    /// promise; trailing bytes are ignored.
    pub fn from_reader(r: &mut ByteReader<'_>) -> (res: Result<Level, Error>)
        requires
            old(r).wf(),
            old(r).pos == 0,
        ensures
            final(r).wf(),
            res matches Ok(m) ==> m.spec_decoded_from(old(r).bytes@),
            res is Ok <==> spec_map_ok(old(r).bytes@),
            res matches Err(e) ==> ((e is UnsupportedVersion) <==> (old(r).bytes@.len() >= 4
                && !spec_version_ok(spec_version(old(r).bytes@)))),
            res matches Err(Error::UnsupportedVersion(v)) ==> v == spec_version(old(r).bytes@),
    {
        let version = r.read_i32()?;
        if !(version == 7 || version == 8 || version == 9) {
            return Err(Error::UnsupportedVersion(version));
        }
        let player = Player::from_reader(r)?;
        let sectors = Sectors::from_reader(r)?;
        let sprites = sprite::from_reader(r)?;
        Ok(Level { version, player, sectors, sprites })
    }

    /// Decode a MAP byte slice.
    pub fn from_slice(slice: &[u8]) -> (res: Result<Level, Error>)
        ensures
            res matches Ok(m) ==> m.spec_decoded_from(slice@),
            res is Ok <==> spec_map_ok(slice@),
            res matches Err(e) ==> ((e is UnsupportedVersion) <==> (slice@.len() >= 4
                && !spec_version_ok(spec_version(slice@)))),
            res matches Err(Error::UnsupportedVersion(v)) ==> v == spec_version(slice@),
    {
        let mut r = ByteReader::new(slice);
        Level::from_reader(&mut r)
    }
}

/// The concatenated encodings of a sector list.
pub open spec fn spec_sectors_bytes(v: Seq<Sector>) -> Seq<u8>
    decreases v.len(),
{
    if v.len() == 0 {
        Seq::empty()
    } else {
        spec_sectors_bytes(v.drop_last()) + spec_sector_bytes(v.last())
    }
}

/// The concatenated encodings of a wall list.
pub open spec fn spec_walls_bytes(v: Seq<Wall>) -> Seq<u8>
    decreases v.len(),
{
    if v.len() == 0 {
        Seq::empty()
    } else {
        spec_walls_bytes(v.drop_last()) + spec_wall_bytes(v.last())
    }
}

/// The concatenated encodings of a sprite list.
pub open spec fn spec_sprites_bytes(v: Seq<Sprite>) -> Seq<u8>
    decreases v.len(),
{
    if v.len() == 0 {
        Seq::empty()
    } else {
        spec_sprites_bytes(v.drop_last()) + spec_sprite_bytes(v.last())
    }
}

/// Re-encoding sectors decoded from consecutive records of `b` gives back
/// exactly those bytes.
proof fn lemma_sectors_bytes_of_decoded(b: Seq<u8>, base: int, v: Seq<Sector>)
    requires
        0 <= base,
        base + 40 * v.len() <= b.len(),
        forall|i: int| 0 <= i < v.len() ==> v[i] == spec_sector_from(b, base + 40 * i),
    ensures
        spec_sectors_bytes(v) =~= b.subrange(base, base + 40 * v.len()),
    decreases v.len(),
{
    if v.len() > 0 {
        let n = v.len() as int;
        lemma_sectors_bytes_of_decoded(b, base, v.drop_last());
        lemma_sector_roundtrip(b, base + 40 * (n - 1));
        assert(v.last() == spec_sector_from(b, base + 40 * (n - 1)));
        assert(spec_sectors_bytes(v) =~= b.subrange(base, base + 40 * n));
    }
}

/// Re-encoding walls decoded from consecutive records of `b` gives back
/// exactly those bytes.
proof fn lemma_walls_bytes_of_decoded(b: Seq<u8>, base: int, v: Seq<Wall>)
    requires
        0 <= base,
        base + 32 * v.len() <= b.len(),
        forall|i: int| 0 <= i < v.len() ==> v[i] == spec_wall_from(b, base + 32 * i),
    ensures
        spec_walls_bytes(v) =~= b.subrange(base, base + 32 * v.len()),
    decreases v.len(),
{
    if v.len() > 0 {
        let n = v.len() as int;
        lemma_walls_bytes_of_decoded(b, base, v.drop_last());
        lemma_wall_roundtrip(b, base + 32 * (n - 1));
        assert(v.last() == spec_wall_from(b, base + 32 * (n - 1)));
        assert(spec_walls_bytes(v) =~= b.subrange(base, base + 32 * n));
    }
}

/// Re-encoding sprites decoded from consecutive records of `b` gives back
/// exactly those bytes.
proof fn lemma_sprites_bytes_of_decoded(b: Seq<u8>, base: int, v: Seq<Sprite>)
    requires
        0 <= base,
        base + 44 * v.len() <= b.len(),
        forall|i: int| 0 <= i < v.len() ==> v[i] == spec_sprite_from(b, base + 44 * i),
    ensures
        spec_sprites_bytes(v) =~= b.subrange(base, base + 44 * v.len()),
    decreases v.len(),
{
    if v.len() > 0 {
        let n = v.len() as int;
        lemma_sprites_bytes_of_decoded(b, base, v.drop_last());
        lemma_sprite_roundtrip(b, base + 44 * (n - 1));
        assert(v.last() == spec_sprite_from(b, base + 44 * (n - 1)));
        assert(spec_sprites_bytes(v) =~= b.subrange(base, base + 44 * n));
    }
}

impl Level {
    /// The full byte encoding of a level.
    pub open spec fn spec_bytes(self) -> Seq<u8> {
        seq![
            spec_u32_byte(self.version as u32, 0),
            spec_u32_byte(self.version as u32, 1),
            spec_u32_byte(self.version as u32, 2),
            spec_u32_byte(self.version as u32, 3),
        ] + spec_player_bytes(self.player) + seq![
            spec_u16_lo(self.sectors.sectors@.len() as u16),
            spec_u16_hi(self.sectors.sectors@.len() as u16),
        ] + spec_sectors_bytes(self.sectors.sectors@) + seq![
            spec_u16_lo(self.sectors.walls@.len() as u16),
            spec_u16_hi(self.sectors.walls@.len() as u16),
        ] + spec_walls_bytes(self.sectors.walls@) + seq![
            spec_u16_lo(self.sprites@.len() as u16),
            spec_u16_hi(self.sprites@.len() as u16),
        ] + spec_sprites_bytes(self.sprites@)
    }

    /// Encode the level back into MAP bytes.
    pub fn to_bytes(&self) -> (res: Vec<u8>)
        requires
            self.sectors.sectors@.len() <= u16::MAX,
            self.sectors.walls@.len() <= u16::MAX,
            self.sprites@.len() <= u16::MAX,
        ensures
            res@ == self.spec_bytes(),
    {
        let mut out: Vec<u8> = Vec::new();
        push_i32(&mut out, self.version);
        self.player.to_bytes(&mut out);
        let ghost after_player = out@;
        push_u16(&mut out, self.sectors.sectors.len() as u16);
        let ghost sec_base = out@;
        let n = self.sectors.sectors.len();
        let mut i: usize = 0;
        while i < n
            invariant
                i <= n,
                n == self.sectors.sectors@.len(),
                out@ == sec_base + spec_sectors_bytes(self.sectors.sectors@.take(i as int)),
            decreases n - i,
        {
            self.sectors.sectors[i].to_bytes(&mut out);
            proof {
                let t = self.sectors.sectors@.take(i + 1);
                assert(t.drop_last() =~= self.sectors.sectors@.take(i as int));
                assert(t.last() == self.sectors.sectors@[i as int]);
            }
            i = i + 1;
        }
        proof {
            assert(self.sectors.sectors@.take(n as int) =~= self.sectors.sectors@);
        }
        push_u16(&mut out, self.sectors.walls.len() as u16);
        let ghost wall_base = out@;
        let nw = self.sectors.walls.len();
        let mut j: usize = 0;
        while j < nw
            invariant
                j <= nw,
                nw == self.sectors.walls@.len(),
                out@ == wall_base + spec_walls_bytes(self.sectors.walls@.take(j as int)),
            decreases nw - j,
        {
            self.sectors.walls[j].to_bytes(&mut out);
            proof {
                let t = self.sectors.walls@.take(j + 1);
                assert(t.drop_last() =~= self.sectors.walls@.take(j as int));
                assert(t.last() == self.sectors.walls@[j as int]);
            }
            j = j + 1;
        }
        proof {
            assert(self.sectors.walls@.take(nw as int) =~= self.sectors.walls@);
        }
        push_u16(&mut out, self.sprites.len() as u16);
        let ghost sprite_base = out@;
        let np = self.sprites.len();
        let mut k: usize = 0;
        while k < np
            invariant
                k <= np,
                np == self.sprites@.len(),
                out@ == sprite_base + spec_sprites_bytes(self.sprites@.take(k as int)),
            decreases np - k,
        {
            self.sprites[k].to_bytes(&mut out);
            proof {
                let t = self.sprites@.take(k + 1);
                assert(t.drop_last() =~= self.sprites@.take(k as int));
                assert(t.last() == self.sprites@[k as int]);
            }
            k = k + 1;
        }
        proof {
            assert(self.sprites@.take(np as int) =~= self.sprites@);
            assert(out@ =~= self.spec_bytes());
        }
        out
    }
}

/// Law: decoding a well-formed MAP stream and re-encoding the result gives
/// back exactly the bytes the structure occupies.
#[verifier::rlimit(60)]
pub proof fn lemma_level_roundtrip(b: Seq<u8>, m: Level)
    requires
        spec_map_ok(b),
        m.spec_decoded_from(b),
    ensures
        m.spec_bytes() =~= b.subrange(0, spec_map_len(b)),
{
    let ns = spec_num_sectors(b) as int;
    let nw = spec_num_walls(b) as int;
    let np = spec_num_sprites(b) as int;
    let woff = spec_walls_off(b);
    let soff = spec_sprites_off(b);
    lemma_i32_cast_roundtrip(0, spec_u32_le(b[0], b[1], b[2], b[3]));
    lemma_u32_le_roundtrip(b[0], b[1], b[2], b[3], 0);
    lemma_player_roundtrip(b, 4);
    lemma_u16_le_roundtrip(b[20], b[21], 0);
    lemma_u16_le_roundtrip(b[woff], b[woff + 1], 0);
    lemma_u16_le_roundtrip(b[soff], b[soff + 1], 0);
    lemma_sectors_bytes_of_decoded(b, 22, m.sectors.sectors@);
    lemma_walls_bytes_of_decoded(b, woff + 2, m.sectors.walls@);
    lemma_sprites_bytes_of_decoded(b, soff + 2, m.sprites@);
    assert(m.spec_bytes() =~= b.subrange(0, spec_map_len(b)));
}


} // verus!
