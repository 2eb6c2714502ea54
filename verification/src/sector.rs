//! Sectors and walls: the level geometry.
//!
//! A sector is a polygonal room with a flat ceiling and floor; it owns a
//! contiguous run of walls starting at `wallptr`. Each wall stores its
//! left endpoint and the index (`point2`) of the wall holding its right
//! endpoint, which chains the walls of a sector into a closed loop.

use crate::bytes::{
    lemma_i16_cast_roundtrip, lemma_i32_cast_roundtrip, lemma_i8_cast_roundtrip,
    lemma_u16_le_roundtrip, lemma_u32_le_roundtrip, push_i16, push_i32, push_i8, push_u16, push_u8,
    spec_i16_le, spec_i32_le, spec_u16_hi, spec_u16_le, spec_u16_lo, spec_u32_byte, spec_u32_le,
    ByteReader,
};
use crate::Error;
use vstd::prelude::*;

verus! {

/// Index of a sector in the map's sector array; `-1` stands for "none".
pub type SectorId = i16;

/// Raw sector status bits; reserved bits are kept as read.
#[derive(Debug, PartialEq, Eq, Structural, Copy, Clone)]
pub struct SectorStat {
    pub bits: u16,
}

/// Raw wall status bits; reserved bits are kept as read.
#[derive(Debug, PartialEq, Eq, Structural, Copy, Clone)]
pub struct WallStat {
    pub bits: u16,
}

/// A room: a loop of walls between a ceiling plane and a floor plane.
#[derive(Debug, PartialEq, Eq, Structural, Copy, Clone)]
pub struct Sector {
    pub wallptr: u16,
    pub wallnum: u16,
    pub ceiling_z: i32,
    pub floor_z: i32,
    pub ceiling_stat: SectorStat,
    pub floor_stat: SectorStat,
    pub ceiling_picnum: i16,
    pub ceiling_heinum: i16,
    pub ceiling_shade: i8,
    pub ceiling_pal: u8,
    pub ceiling_xpanning: u8,
    pub ceiling_ypanning: u8,
    pub floor_picnum: i16,
    pub floor_heinum: i16,
    pub floor_shade: i8,
    pub floor_pal: u8,
    pub floor_xpanning: u8,
    pub floor_ypanning: u8,
    pub visibility: u8,
    pub filler: u8,
    pub lotag: i16,
    pub hitag: i16,
    pub extra: i16,
}

/// One edge of a sector polygon. `next_sector >= 0` makes it a portal.
#[derive(Debug, PartialEq, Eq, Structural, Copy, Clone)]
pub struct Wall {
    pub x: i32,
    pub y: i32,
    pub point2: i16,
    pub next_wall: i16,
    pub next_sector: i16,
    pub wall_stat: WallStat,
    pub picnum: i16,
    pub over_picnum: i16,
    pub shade: i8,
    pub pal: u8,
    pub x_repeat: u8,
    pub y_repeat: u8,
    pub x_panning: u8,
    pub y_panning: u8,
    pub lotag: i16,
    pub hitag: i16,
    pub extra: i16,
}

/// The `Sector` record laid out at offset `p` of `b`.
pub open spec fn spec_sector_from(b: Seq<u8>, p: int) -> Sector {
    Sector {
        wallptr: spec_u16_le(b[p], b[p + 1]),
        wallnum: spec_u16_le(b[p + 2], b[p + 3]),
        ceiling_z: spec_i32_le(b[p + 4], b[p + 5], b[p + 6], b[p + 7]),
        floor_z: spec_i32_le(b[p + 8], b[p + 9], b[p + 10], b[p + 11]),
        ceiling_stat: SectorStat { bits: spec_u16_le(b[p + 12], b[p + 13]) },
        floor_stat: SectorStat { bits: spec_u16_le(b[p + 14], b[p + 15]) },
        ceiling_picnum: spec_i16_le(b[p + 16], b[p + 17]),
        ceiling_heinum: spec_i16_le(b[p + 18], b[p + 19]),
        ceiling_shade: b[p + 20] as i8,
        ceiling_pal: b[p + 21],
        ceiling_xpanning: b[p + 22],
        ceiling_ypanning: b[p + 23],
        floor_picnum: spec_i16_le(b[p + 24], b[p + 25]),
        floor_heinum: spec_i16_le(b[p + 26], b[p + 27]),
        floor_shade: b[p + 28] as i8,
        floor_pal: b[p + 29],
        floor_xpanning: b[p + 30],
        floor_ypanning: b[p + 31],
        visibility: b[p + 32],
        filler: b[p + 33],
        lotag: spec_i16_le(b[p + 34], b[p + 35]),
        hitag: spec_i16_le(b[p + 36], b[p + 37]),
        extra: spec_i16_le(b[p + 38], b[p + 39]),
    }
}

/// The 40 bytes that encode `s`.
pub open spec fn spec_sector_bytes(s: Sector) -> Seq<u8> {
    seq![
        spec_u16_lo(s.wallptr),
        spec_u16_hi(s.wallptr),
        spec_u16_lo(s.wallnum),
        spec_u16_hi(s.wallnum),
        spec_u32_byte(s.ceiling_z as u32, 0),
        spec_u32_byte(s.ceiling_z as u32, 1),
        spec_u32_byte(s.ceiling_z as u32, 2),
        spec_u32_byte(s.ceiling_z as u32, 3),
        spec_u32_byte(s.floor_z as u32, 0),
        spec_u32_byte(s.floor_z as u32, 1),
        spec_u32_byte(s.floor_z as u32, 2),
        spec_u32_byte(s.floor_z as u32, 3),
        spec_u16_lo(s.ceiling_stat.bits),
        spec_u16_hi(s.ceiling_stat.bits),
        spec_u16_lo(s.floor_stat.bits),
        spec_u16_hi(s.floor_stat.bits),
        spec_u16_lo(s.ceiling_picnum as u16),
        spec_u16_hi(s.ceiling_picnum as u16),
        spec_u16_lo(s.ceiling_heinum as u16),
        spec_u16_hi(s.ceiling_heinum as u16),
        s.ceiling_shade as u8,
        s.ceiling_pal,
        s.ceiling_xpanning,
        s.ceiling_ypanning,
        spec_u16_lo(s.floor_picnum as u16),
        spec_u16_hi(s.floor_picnum as u16),
        spec_u16_lo(s.floor_heinum as u16),
        spec_u16_hi(s.floor_heinum as u16),
        s.floor_shade as u8,
        s.floor_pal,
        s.floor_xpanning,
        s.floor_ypanning,
        s.visibility,
        s.filler,
        spec_u16_lo(s.lotag as u16),
        spec_u16_hi(s.lotag as u16),
        spec_u16_lo(s.hitag as u16),
        spec_u16_hi(s.hitag as u16),
        spec_u16_lo(s.extra as u16),
        spec_u16_hi(s.extra as u16),
    ]
}

impl Sector {
    /// Decode one record; consumes exactly 40 bytes on success.
    pub fn from_reader(r: &mut ByteReader<'_>) -> (res: Result<Sector, Error>)
        requires
            old(r).wf(),
        ensures
            final(r).wf(),
            final(r).bytes@ == old(r).bytes@,
            res is Ok <==> old(r).spec_remaining() >= 40,
            res matches Ok(s) ==> s == spec_sector_from(old(r).bytes@, old(r).pos as int)
                && final(r).pos == old(r).pos + 40,
            res is Err ==> res == Err::<Sector, Error>(Error::UnexpectedEnd),
    {
        Ok(Sector {
            wallptr: r.read_u16()?,
            wallnum: r.read_u16()?,
            ceiling_z: r.read_i32()?,
            floor_z: r.read_i32()?,
            ceiling_stat: SectorStat { bits: r.read_u16()? },
            floor_stat: SectorStat { bits: r.read_u16()? },
            ceiling_picnum: r.read_i16()?,
            ceiling_heinum: r.read_i16()?,
            ceiling_shade: r.read_i8()?,
            ceiling_pal: r.read_u8()?,
            ceiling_xpanning: r.read_u8()?,
            ceiling_ypanning: r.read_u8()?,
            floor_picnum: r.read_i16()?,
            floor_heinum: r.read_i16()?,
            floor_shade: r.read_i8()?,
            floor_pal: r.read_u8()?,
            floor_xpanning: r.read_u8()?,
            floor_ypanning: r.read_u8()?,
            visibility: r.read_u8()?,
            filler: r.read_u8()?,
            lotag: r.read_i16()?,
            hitag: r.read_i16()?,
            extra: r.read_i16()?,
        })
    }

    /// Append this record's 40-byte encoding to `out`.
    pub fn to_bytes(&self, out: &mut Vec<u8>)
        ensures
            final(out)@ == old(out)@ + spec_sector_bytes(*self),
    {
        push_u16(out, self.wallptr);
        push_u16(out, self.wallnum);
        push_i32(out, self.ceiling_z);
        push_i32(out, self.floor_z);
        push_u16(out, self.ceiling_stat.bits);
        push_u16(out, self.floor_stat.bits);
        push_i16(out, self.ceiling_picnum);
        push_i16(out, self.ceiling_heinum);
        push_i8(out, self.ceiling_shade);
        push_u8(out, self.ceiling_pal);
        push_u8(out, self.ceiling_xpanning);
        push_u8(out, self.ceiling_ypanning);
        push_i16(out, self.floor_picnum);
        push_i16(out, self.floor_heinum);
        push_i8(out, self.floor_shade);
        push_u8(out, self.floor_pal);
        push_u8(out, self.floor_xpanning);
        push_u8(out, self.floor_ypanning);
        push_u8(out, self.visibility);
        push_u8(out, self.filler);
        push_i16(out, self.lotag);
        push_i16(out, self.hitag);
        push_i16(out, self.extra);
        proof {
            assert(final(out)@ =~= old(out)@ + spec_sector_bytes(*self));
        }
    }
}

/// Law: re-encoding a decoded `Sector` record gives back exactly the
/// 40 bytes it was decoded from.
pub proof fn lemma_sector_roundtrip(b: Seq<u8>, p: int)
    requires
        0 <= p && p + 40 <= b.len(),
    ensures
        spec_sector_bytes(spec_sector_from(b, p)) =~= b.subrange(p, p + 40),
{
    lemma_u16_le_roundtrip(b[p], b[p + 1], 0);
    lemma_u16_le_roundtrip(b[p + 2], b[p + 3], 0);
    lemma_i32_cast_roundtrip(0, spec_u32_le(b[p + 4], b[p + 5], b[p + 6], b[p + 7]));
    lemma_u32_le_roundtrip(b[p + 4], b[p + 5], b[p + 6], b[p + 7], 0);
    lemma_i32_cast_roundtrip(0, spec_u32_le(b[p + 8], b[p + 9], b[p + 10], b[p + 11]));
    lemma_u32_le_roundtrip(b[p + 8], b[p + 9], b[p + 10], b[p + 11], 0);
    lemma_u16_le_roundtrip(b[p + 12], b[p + 13], 0);
    lemma_u16_le_roundtrip(b[p + 14], b[p + 15], 0);
    lemma_i16_cast_roundtrip(0, spec_u16_le(b[p + 16], b[p + 17]));
    lemma_u16_le_roundtrip(b[p + 16], b[p + 17], 0);
    lemma_i16_cast_roundtrip(0, spec_u16_le(b[p + 18], b[p + 19]));
    lemma_u16_le_roundtrip(b[p + 18], b[p + 19], 0);
    lemma_i8_cast_roundtrip(0, b[p + 20]);
    lemma_i16_cast_roundtrip(0, spec_u16_le(b[p + 24], b[p + 25]));
    lemma_u16_le_roundtrip(b[p + 24], b[p + 25], 0);
    lemma_i16_cast_roundtrip(0, spec_u16_le(b[p + 26], b[p + 27]));
    lemma_u16_le_roundtrip(b[p + 26], b[p + 27], 0);
    lemma_i8_cast_roundtrip(0, b[p + 28]);
    lemma_i16_cast_roundtrip(0, spec_u16_le(b[p + 34], b[p + 35]));
    lemma_u16_le_roundtrip(b[p + 34], b[p + 35], 0);
    lemma_i16_cast_roundtrip(0, spec_u16_le(b[p + 36], b[p + 37]));
    lemma_u16_le_roundtrip(b[p + 36], b[p + 37], 0);
    lemma_i16_cast_roundtrip(0, spec_u16_le(b[p + 38], b[p + 39]));
    lemma_u16_le_roundtrip(b[p + 38], b[p + 39], 0);
}

/// The `Wall` record laid out at offset `p` of `b`.
pub open spec fn spec_wall_from(b: Seq<u8>, p: int) -> Wall {
    Wall {
        x: spec_i32_le(b[p], b[p + 1], b[p + 2], b[p + 3]),
        y: spec_i32_le(b[p + 4], b[p + 5], b[p + 6], b[p + 7]),
        point2: spec_i16_le(b[p + 8], b[p + 9]),
        next_wall: spec_i16_le(b[p + 10], b[p + 11]),
        next_sector: spec_i16_le(b[p + 12], b[p + 13]),
        wall_stat: WallStat { bits: spec_u16_le(b[p + 14], b[p + 15]) },
        picnum: spec_i16_le(b[p + 16], b[p + 17]),
        over_picnum: spec_i16_le(b[p + 18], b[p + 19]),
        shade: b[p + 20] as i8,
        pal: b[p + 21],
        x_repeat: b[p + 22],
        y_repeat: b[p + 23],
        x_panning: b[p + 24],
        y_panning: b[p + 25],
        lotag: spec_i16_le(b[p + 26], b[p + 27]),
        hitag: spec_i16_le(b[p + 28], b[p + 29]),
        extra: spec_i16_le(b[p + 30], b[p + 31]),
    }
}

/// The 32 bytes that encode `s`.
pub open spec fn spec_wall_bytes(s: Wall) -> Seq<u8> {
    seq![
        spec_u32_byte(s.x as u32, 0),
        spec_u32_byte(s.x as u32, 1),
        spec_u32_byte(s.x as u32, 2),
        spec_u32_byte(s.x as u32, 3),
        spec_u32_byte(s.y as u32, 0),
        spec_u32_byte(s.y as u32, 1),
        spec_u32_byte(s.y as u32, 2),
        spec_u32_byte(s.y as u32, 3),
        spec_u16_lo(s.point2 as u16),
        spec_u16_hi(s.point2 as u16),
        spec_u16_lo(s.next_wall as u16),
        spec_u16_hi(s.next_wall as u16),
        spec_u16_lo(s.next_sector as u16),
        spec_u16_hi(s.next_sector as u16),
        spec_u16_lo(s.wall_stat.bits),
        spec_u16_hi(s.wall_stat.bits),
        spec_u16_lo(s.picnum as u16),
        spec_u16_hi(s.picnum as u16),
        spec_u16_lo(s.over_picnum as u16),
        spec_u16_hi(s.over_picnum as u16),
        s.shade as u8,
        s.pal,
        s.x_repeat,
        s.y_repeat,
        s.x_panning,
        s.y_panning,
        spec_u16_lo(s.lotag as u16),
        spec_u16_hi(s.lotag as u16),
        spec_u16_lo(s.hitag as u16),
        spec_u16_hi(s.hitag as u16),
        spec_u16_lo(s.extra as u16),
        spec_u16_hi(s.extra as u16),
    ]
}

impl Wall {
    /// Decode one record; consumes exactly 32 bytes on success.
    pub fn from_reader(r: &mut ByteReader<'_>) -> (res: Result<Wall, Error>)
        requires
            old(r).wf(),
        ensures
            final(r).wf(),
            final(r).bytes@ == old(r).bytes@,
            res is Ok <==> old(r).spec_remaining() >= 32,
            res matches Ok(s) ==> s == spec_wall_from(old(r).bytes@, old(r).pos as int)
                && final(r).pos == old(r).pos + 32,
            res is Err ==> res == Err::<Wall, Error>(Error::UnexpectedEnd),
    {
        Ok(Wall {
            x: r.read_i32()?,
            y: r.read_i32()?,
            point2: r.read_i16()?,
            next_wall: r.read_i16()?,
            next_sector: r.read_i16()?,
            wall_stat: WallStat { bits: r.read_u16()? },
            picnum: r.read_i16()?,
            over_picnum: r.read_i16()?,
            shade: r.read_i8()?,
            pal: r.read_u8()?,
            x_repeat: r.read_u8()?,
            y_repeat: r.read_u8()?,
            x_panning: r.read_u8()?,
            y_panning: r.read_u8()?,
            lotag: r.read_i16()?,
            hitag: r.read_i16()?,
            extra: r.read_i16()?,
        })
    }

    /// Append this record's 32-byte encoding to `out`.
    pub fn to_bytes(&self, out: &mut Vec<u8>)
        ensures
            final(out)@ == old(out)@ + spec_wall_bytes(*self),
    {
        push_i32(out, self.x);
        push_i32(out, self.y);
        push_i16(out, self.point2);
        push_i16(out, self.next_wall);
        push_i16(out, self.next_sector);
        push_u16(out, self.wall_stat.bits);
        push_i16(out, self.picnum);
        push_i16(out, self.over_picnum);
        push_i8(out, self.shade);
        push_u8(out, self.pal);
        push_u8(out, self.x_repeat);
        push_u8(out, self.y_repeat);
        push_u8(out, self.x_panning);
        push_u8(out, self.y_panning);
        push_i16(out, self.lotag);
        push_i16(out, self.hitag);
        push_i16(out, self.extra);
        proof {
            assert(final(out)@ =~= old(out)@ + spec_wall_bytes(*self));
        }
    }
}

/// Law: re-encoding a decoded `Wall` record gives back exactly the
/// 32 bytes it was decoded from.
pub proof fn lemma_wall_roundtrip(b: Seq<u8>, p: int)
    requires
        0 <= p && p + 32 <= b.len(),
    ensures
        spec_wall_bytes(spec_wall_from(b, p)) =~= b.subrange(p, p + 32),
{
    lemma_i32_cast_roundtrip(0, spec_u32_le(b[p], b[p + 1], b[p + 2], b[p + 3]));
    lemma_u32_le_roundtrip(b[p], b[p + 1], b[p + 2], b[p + 3], 0);
    lemma_i32_cast_roundtrip(0, spec_u32_le(b[p + 4], b[p + 5], b[p + 6], b[p + 7]));
    lemma_u32_le_roundtrip(b[p + 4], b[p + 5], b[p + 6], b[p + 7], 0);
    lemma_i16_cast_roundtrip(0, spec_u16_le(b[p + 8], b[p + 9]));
    lemma_u16_le_roundtrip(b[p + 8], b[p + 9], 0);
    lemma_i16_cast_roundtrip(0, spec_u16_le(b[p + 10], b[p + 11]));
    lemma_u16_le_roundtrip(b[p + 10], b[p + 11], 0);
    lemma_i16_cast_roundtrip(0, spec_u16_le(b[p + 12], b[p + 13]));
    lemma_u16_le_roundtrip(b[p + 12], b[p + 13], 0);
    lemma_u16_le_roundtrip(b[p + 14], b[p + 15], 0);
    lemma_i16_cast_roundtrip(0, spec_u16_le(b[p + 16], b[p + 17]));
    lemma_u16_le_roundtrip(b[p + 16], b[p + 17], 0);
    lemma_i16_cast_roundtrip(0, spec_u16_le(b[p + 18], b[p + 19]));
    lemma_u16_le_roundtrip(b[p + 18], b[p + 19], 0);
    lemma_i8_cast_roundtrip(0, b[p + 20]);
    lemma_i16_cast_roundtrip(0, spec_u16_le(b[p + 26], b[p + 27]));
    lemma_u16_le_roundtrip(b[p + 26], b[p + 27], 0);
    lemma_i16_cast_roundtrip(0, spec_u16_le(b[p + 28], b[p + 29]));
    lemma_u16_le_roundtrip(b[p + 28], b[p + 29], 0);
    lemma_i16_cast_roundtrip(0, spec_u16_le(b[p + 30], b[p + 31]));
    lemma_u16_le_roundtrip(b[p + 30], b[p + 31], 0);
}

/// The whole level geometry: all sectors and all walls, in file order.
#[derive(Debug)]
pub struct Sectors {
    pub sectors: Vec<Sector>,
    pub walls: Vec<Wall>,
}

/// One step of the wall loop: the `point2` of wall `i`, with an index that
/// falls outside the wall array hardened to `first` (closing the loop).
pub open spec fn spec_loop_step(walls: Seq<Wall>, first: int, i: int) -> int {
    if 0 <= walls[i].point2 < walls.len() {
        walls[i].point2 as int
    } else {
        first
    }
}

/// The wall index reached from `first` after `k` steps along `point2`.
pub open spec fn spec_chain(walls: Seq<Wall>, first: int, k: nat) -> int
    decreases k,
{
    if k == 0 {
        first
    } else {
        spec_loop_step(walls, first, spec_chain(walls, first, (k - 1) as nat))
    }
}

/// A well-formed wall loop: `count` steps from `first` return to `first`
/// and no earlier step does.
pub open spec fn spec_loop_closed(walls: Seq<Wall>, first: int, count: nat) -> bool {
    &&& 0 <= first < walls.len()
    &&& count >= 1
    &&& spec_chain(walls, first, count) == first
    &&& forall|k: nat| 0 < k < count ==> spec_chain(walls, first, k) != first
}

/// The length of the wall run the hardened walk will actually follow:
/// the sector's wall count, or none when the run does not fit the array.
pub open spec fn spec_run_len(sec: Sector, nwalls: int) -> int {
    if sec.wallnum == 0 || sec.wallptr >= nwalls || nwalls - sec.wallptr < sec.wallnum {
        0
    } else {
        sec.wallnum as int
    }
}

/// Walks the wall loop of one sector, yielding each wall together with
/// the wall that holds its right endpoint. The walk is hardened: it never
/// yields more than `len` pairs and treats an out-of-range `point2` as a
/// loop closure, so it terminates on any input.
#[derive(Debug)]
pub struct SectorWalls<'a> {
    pub len: usize,
    pub index: usize,
    pub first: usize,
    pub walls: &'a Vec<Wall>,
    pub curr: usize,
    pub done: bool,
}

impl<'a> SectorWalls<'a> {
    /// The iterator is always at the chain position given by its yield
    /// count, and `done` records exactly whether the chain has closed.
    pub open spec fn wf(self) -> bool {
        &&& self.index <= self.len
        &&& self.len > 0 ==> {
            &&& self.first < self.walls@.len()
            &&& self.curr == spec_chain(self.walls@, self.first as int, self.index as nat)
            &&& self.curr < self.walls@.len()
            &&& (self.index == 0 ==> !self.done && self.curr == self.first)
            &&& (self.index > 0 ==> (self.done <==> self.curr == self.first))
        }
    }

    /// Yield the next `(wall index, wall, right wall)` triple, or `None`
    /// once the loop has closed or `len` pairs have been yielded.
    pub fn next(&mut self) -> (r: Option<(SectorId, Wall, Wall)>)
        requires
            old(self).wf(),
        ensures
            final(self).wf(),
            final(self).walls@ == old(self).walls@,
            final(self).first == old(self).first,
            final(self).len == old(self).len,
            r is Some <==> !old(self).done && old(self).index < old(self).len,
            r is None ==> *final(self) == *old(self),
            r matches Some(p) ==> {
                let left = old(self).walls@[old(self).curr as int];
                let right_idx = spec_loop_step(
                    old(self).walls@,
                    old(self).first as int,
                    old(self).curr as int,
                );
                &&& p == ((old(self).curr as i16), left, old(self).walls@[right_idx])
                &&& final(self).index == old(self).index + 1
                &&& final(self).curr == right_idx
                &&& (final(self).done <==> right_idx == old(self).first)
            },
    {
        if self.done || self.index >= self.len {
            return None;
        }
        let left = self.walls[self.curr];
        let right_idx: usize = if left.point2 >= 0 && (left.point2 as usize) < self.walls.len() {
            left.point2 as usize
        } else {
            self.first
        };
        let right = self.walls[right_idx];
        let id = self.curr as i16;
        self.index = self.index + 1;
        if right_idx == self.first {
            self.done = true;
        }
        self.curr = right_idx;
        Some((id, left, right))
    }
}

/// Law: on a closed wall loop of `count` walls, following `point2`
/// exactly `count` times returns to `wall_first` and no earlier step
/// does.
pub proof fn lemma_wall_loop_closure(walls: Seq<Wall>, first: int, count: nat, k: nat)
    requires
        spec_loop_closed(walls, first, count),
        k <= count,
    ensures
        k < count ==> (spec_chain(walls, first, k) == first <==> k == 0),
        k == count ==> spec_chain(walls, first, k) == first,
{
}

/// Law: on a closed wall loop, the walk yields a pair exactly at every
/// step below the wall count, so `next` returns `Some` precisely
/// `wall_count` times before it stops.
pub proof fn lemma_wall_loop_yields<'a>(it: SectorWalls<'a>, count: nat)
    requires
        it.wf(),
        it.len == count,
        spec_loop_closed(it.walls@, it.first as int, count),
    ensures
        (!it.done && it.index < it.len) <==> it.index < count,
{
    if 0 < it.index < count {
        lemma_wall_loop_closure(it.walls@, it.first as int, count, it.index as nat);
    }
}

impl Sectors {
    /// Return a sector and a walk over its wall loop, or `None` when the
    /// id is `-1` or out of range.
    pub fn get(&self, sector: SectorId) -> (r: Option<(&Sector, SectorWalls<'_>)>)
        ensures
            r is Some <==> 0 <= sector < self.sectors@.len(),
            r matches Some(p) ==> {
                &&& *p.0 == self.sectors@[sector as int]
                &&& p.1.wf()
                &&& p.1.walls@ == self.walls@
                &&& p.1.index == 0
                &&& p.1.len == spec_run_len(self.sectors@[sector as int], self.walls@.len() as int)
                &&& (p.1.len > 0 ==> p.1.first == self.sectors@[sector as int].wallptr
                    && p.1.curr == p.1.first)
            },
    {
        if sector < 0 || (sector as usize) >= self.sectors.len() {
            None
        } else {
            let s = &self.sectors[sector as usize];
            Some((s, self.sector_walls(sector)))
        }
    }

    /// All sectors in file order, for random access.
    pub fn sectors(&self) -> (r: &Vec<Sector>)
        ensures
            r@ == self.sectors@,
    {
        &self.sectors
    }

    /// All walls in file order, for random access.
    pub fn walls(&self) -> (r: &Vec<Wall>)
        ensures
            r@ == self.walls@,
    {
        &self.walls
    }

    /// Walk over the wall loop of `sector`. A sector whose wall run does
    /// not fit the wall array yields no pairs at all.
    pub fn sector_walls(&self, sector: SectorId) -> (r: SectorWalls<'_>)
        requires
            0 <= sector < self.sectors@.len(),
        ensures
            r.wf(),
            r.walls@ == self.walls@,
            r.index == 0,
            r.len == spec_run_len(self.sectors@[sector as int], self.walls@.len() as int),
            r.len > 0 ==> r.first == self.sectors@[sector as int].wallptr && r.curr == r.first,
    {
        let s = &self.sectors[sector as usize];
        let first = s.wallptr as usize;
        let count = s.wallnum as usize;
        if count == 0 || first >= self.walls.len() || self.walls.len() - first < count {
            SectorWalls {
                len: 0,
                index: 0,
                first: 0,
                walls: &self.walls,
                curr: 0,
                done: false,
            }
        } else {
            SectorWalls {
                len: count,
                index: 0,
                first,
                walls: &self.walls,
                curr: first,
                done: false,
            }
        }
    }
}

impl Sectors {
    /// Decode a sector list: a `u16` count followed by that many records.
    fn read_sectors(r: &mut ByteReader<'_>) -> (res: Result<Vec<Sector>, Error>)
        requires
            old(r).wf(),
        ensures
            final(r).wf(),
            final(r).bytes@ == old(r).bytes@,
            res matches Ok(v) ==> {
                &&& old(r).spec_remaining() >= 2
                &&& v@.len() == spec_u16_le(
                    old(r).bytes@[old(r).pos as int],
                    old(r).bytes@[old(r).pos + 1],
                )
                &&& final(r).pos == old(r).pos + 2 + 40 * v@.len()
                &&& forall|i: int|
                    0 <= i < v@.len() ==> v@[i] == spec_sector_from(
                        old(r).bytes@,
                        old(r).pos + 2 + 40 * i,
                    )
            },
            res is Ok <==> old(r).spec_remaining() >= 2 && old(r).spec_remaining() >= 2 + 40
                * spec_u16_le(old(r).bytes@[old(r).pos as int], old(r).bytes@[old(r).pos + 1]),
            res is Err ==> res == Err::<Vec<Sector>, Error>(Error::UnexpectedEnd),
    {
        let count = r.read_u16()?;
        let n = count as usize;
        let mut out: Vec<Sector> = Vec::new();
        let mut i: usize = 0;
        let ghost base = r.pos as int;
        while i < n
            invariant
                r.wf(),
                r.bytes@ == old(r).bytes@,
                n == spec_u16_le(old(r).bytes@[old(r).pos as int], old(r).bytes@[old(r).pos + 1]),
                base == old(r).pos + 2,
                old(r).pos + 2 <= old(r).bytes@.len(),
                i <= n,
                out@.len() == i,
                r.pos == base + 40 * i,
                base + 40 * i <= r.bytes@.len(),
                forall|j: int| 0 <= j < i ==> out@[j] == spec_sector_from(r.bytes@, base + 40 * j),
            decreases n - i,
        {
            let s = match Sector::from_reader(r) {
                Ok(s) => s,
                Err(e) => {
                    proof {
                        assert(40 * (i + 1) <= 40 * n);
                        assert(old(r).spec_remaining() < 2 + 40 * n);
                    }
                    return Err(e);
                },
            };
            out.push(s);
            i = i + 1;
        }
        Ok(out)
    }

    /// Decode a wall list: a `u16` count followed by that many records.
    fn read_walls(r: &mut ByteReader<'_>) -> (res: Result<Vec<Wall>, Error>)
        requires
            old(r).wf(),
        ensures
            final(r).wf(),
            final(r).bytes@ == old(r).bytes@,
            res matches Ok(v) ==> {
                &&& old(r).spec_remaining() >= 2
                &&& v@.len() == spec_u16_le(
                    old(r).bytes@[old(r).pos as int],
                    old(r).bytes@[old(r).pos + 1],
                )
                &&& final(r).pos == old(r).pos + 2 + 32 * v@.len()
                &&& forall|i: int|
                    0 <= i < v@.len() ==> v@[i] == spec_wall_from(
                        old(r).bytes@,
                        old(r).pos + 2 + 32 * i,
                    )
            },
            res is Ok <==> old(r).spec_remaining() >= 2 && old(r).spec_remaining() >= 2 + 32
                * spec_u16_le(old(r).bytes@[old(r).pos as int], old(r).bytes@[old(r).pos + 1]),
            res is Err ==> res == Err::<Vec<Wall>, Error>(Error::UnexpectedEnd),
    {
        let count = r.read_u16()?;
        let n = count as usize;
        let mut out: Vec<Wall> = Vec::new();
        let mut i: usize = 0;
        let ghost base = r.pos as int;
        while i < n
            invariant
                r.wf(),
                r.bytes@ == old(r).bytes@,
                n == spec_u16_le(old(r).bytes@[old(r).pos as int], old(r).bytes@[old(r).pos + 1]),
                base == old(r).pos + 2,
                old(r).pos + 2 <= old(r).bytes@.len(),
                i <= n,
                out@.len() == i,
                r.pos == base + 32 * i,
                base + 32 * i <= r.bytes@.len(),
                forall|j: int| 0 <= j < i ==> out@[j] == spec_wall_from(r.bytes@, base + 32 * j),
            decreases n - i,
        {
            let s = match Wall::from_reader(r) {
                Ok(s) => s,
                Err(e) => {
                    proof {
                        assert(32 * (i + 1) <= 32 * n);
                        assert(old(r).spec_remaining() < 2 + 32 * n);
                    }
                    return Err(e);
                },
            };
            out.push(s);
            i = i + 1;
        }
        Ok(out)
    }

    /// Decode the geometry block: the sector list followed by the wall
    /// list.
    pub fn from_reader(r: &mut ByteReader<'_>) -> (res: Result<Sectors, Error>)
        requires
            old(r).wf(),
        ensures
            final(r).wf(),
            final(r).bytes@ == old(r).bytes@,
            res matches Ok(g) ==> {
                let b = old(r).bytes@;
                let p = old(r).pos as int;
                let ns = spec_u16_le(b[p], b[p + 1]);
                let woff = p + 2 + 40 * ns;
                let nw = spec_u16_le(b[woff], b[woff + 1]);
                &&& g.sectors@.len() == ns
                &&& forall|i: int|
                    0 <= i < ns ==> g.sectors@[i] == spec_sector_from(b, p + 2 + 40 * i)
                &&& g.walls@.len() == nw
                &&& forall|i: int|
                    0 <= i < nw ==> g.walls@[i] == spec_wall_from(b, woff + 2 + 32 * i)
                &&& final(r).pos == woff + 2 + 32 * nw
            },
            res is Ok <==> {
                let b = old(r).bytes@;
                let p = old(r).pos as int;
                let ns = spec_u16_le(b[p], b[p + 1]);
                let woff = p + 2 + 40 * ns;
                let nw = spec_u16_le(b[woff], b[woff + 1]);
                &&& b.len() >= p + 2
                &&& b.len() >= woff + 2
                &&& b.len() >= woff + 2 + 32 * nw
            },
            res is Err ==> res == Err::<Sectors, Error>(Error::UnexpectedEnd),
    {
        let sectors = Self::read_sectors(r)?;
        let walls = Self::read_walls(r)?;
        Ok(Sectors { sectors, walls })
    }
}

} // verus!
