use portalview::player::{Angle, Player};
use portalview::sector::{Sector, SectorStat, Wall, WallStat};
use portalview::sprite::{Sprite, SpriteStat, SpriteType};
use portalview::{Error, Level};

fn push16(out: &mut Vec<u8>, v: u16) {
    out.push((v & 0xff) as u8);
    out.push((v >> 8) as u8);
}

fn push16i(out: &mut Vec<u8>, v: i16) {
    push16(out, v as u16);
}

fn push32i(out: &mut Vec<u8>, v: i32) {
    let u = v as u32;
    out.push((u & 0xff) as u8);
    out.push(((u >> 8) & 0xff) as u8);
    out.push(((u >> 16) & 0xff) as u8);
    out.push(((u >> 24) & 0xff) as u8);
}

fn sector_bytes(out: &mut Vec<u8>, wallptr: u16, wallnum: u16, ceiling_z: i32, floor_z: i32) {
    push16(out, wallptr);
    push16(out, wallnum);
    push32i(out, ceiling_z);
    push32i(out, floor_z);
    push16(out, 0); // ceiling_stat
    push16(out, 0); // floor_stat
    push16i(out, 12); // ceiling_picnum
    push16i(out, 0); // ceiling_heinum
    out.push(3u8 as u8); // ceiling_shade
    out.push(0); // ceiling_pal
    out.push(0); // ceiling_xpanning
    out.push(0); // ceiling_ypanning
    push16i(out, 13); // floor_picnum
    push16i(out, 0); // floor_heinum
    out.push(0); // floor_shade
    out.push(0); // floor_pal
    out.push(0); // floor_xpanning
    out.push(0); // floor_ypanning
    out.push(5); // visibility
    out.push(0xaa); // filler
    push16i(out, 1); // lotag
    push16i(out, 2); // hitag
    push16i(out, -1); // extra
}

fn wall_bytes(out: &mut Vec<u8>, x: i32, y: i32, point2: i16, next_wall: i16, next_sector: i16) {
    push32i(out, x);
    push32i(out, y);
    push16i(out, point2);
    push16i(out, next_wall);
    push16i(out, next_sector);
    push16(out, 0); // wall_stat
    push16i(out, 7); // picnum
    push16i(out, 0); // over_picnum
    out.push(0); // shade
    out.push(0); // pal
    out.push(8); // x_repeat
    out.push(8); // y_repeat
    out.push(0); // x_panning
    out.push(0); // y_panning
    push16i(out, 0); // lotag
    push16i(out, 0); // hitag
    push16i(out, -1); // extra
}

fn sprite_bytes(out: &mut Vec<u8>, x: i32, y: i32, z: i32, sectnum: i16) {
    push32i(out, x);
    push32i(out, y);
    push32i(out, z);
    push16(out, 0x10); // sprite_stat: a wall sprite
    push16i(out, 22); // picnum
    out.push(0); // shade
    out.push(0); // pal
    out.push(32); // clip_dist
    out.push(0x55); // filler
    out.push(48); // x_repeat
    out.push(48); // y_repeat
    out.push(0); // x_offset
    out.push(0); // y_offset
    push16i(out, sectnum);
    push16i(out, 0); // statnum
    push16i(out, 512); // angle
    push16i(out, -1); // owner
    push16i(out, 0); // x_vel
    push16i(out, 0); // y_vel
    push16i(out, 0); // z_vel
    push16i(out, 0); // lotag
    push16i(out, 0); // hitag
    push16i(out, -1); // extra
}

/// A small well-formed version 7 level: one square sector, four walls,
/// one sprite.
fn small_map_bytes() -> Vec<u8> {
    let mut b: Vec<u8> = Vec::new();
    push32i(&mut b, 7); // version
    push32i(&mut b, 10); // pos_x
    push32i(&mut b, -20); // pos_y
    push32i(&mut b, 0); // pos_z
    push16i(&mut b, 512); // angle
    push16i(&mut b, 0); // sector
    push16(&mut b, 1); // num_sectors
    sector_bytes(&mut b, 0, 4, -4000, 0);
    push16(&mut b, 4); // num_walls
    wall_bytes(&mut b, 1000, -1000, 1, -1, -1);
    wall_bytes(&mut b, 1000, 1000, 2, -1, -1);
    wall_bytes(&mut b, -1000, 1000, 3, -1, -1);
    wall_bytes(&mut b, -1000, -1000, 0, -1, -1);
    push16(&mut b, 1); // num_sprites
    sprite_bytes(&mut b, 5, 6, 7, 0);
    b
}

#[test]
fn record_sizes() {
    let mut b = Vec::new();
    sector_bytes(&mut b, 0, 4, -4000, 0);
    assert_eq!(b.len(), 40);
    let mut b = Vec::new();
    wall_bytes(&mut b, 0, 0, 1, -1, -1);
    assert_eq!(b.len(), 32);
    let mut b = Vec::new();
    sprite_bytes(&mut b, 0, 0, 0, 0);
    assert_eq!(b.len(), 44);
}

#[test]
fn decoded_record_sizes_match_encoder() {
    let bytes = small_map_bytes();
    let level = Level::from_slice(&bytes).unwrap();
    let mut out = Vec::new();
    level.sectors.sectors()[0].to_bytes(&mut out);
    assert_eq!(out.len(), 40);
    let mut out = Vec::new();
    level.sectors.walls()[0].to_bytes(&mut out);
    assert_eq!(out.len(), 32);
    let mut out = Vec::new();
    level.sprites[0].to_bytes(&mut out);
    assert_eq!(out.len(), 44);
}

#[test]
fn decode_then_encode_roundtrip() {
    let bytes = small_map_bytes();
    let level = Level::from_slice(&bytes).unwrap();
    assert_eq!(level.to_bytes(), bytes);
}

#[test]
fn decode_fields() {
    let bytes = small_map_bytes();
    let level = Level::from_slice(&bytes).unwrap();
    assert_eq!(level.version, 7);
    assert_eq!(
        level.player,
        Player {
            pos_x: 10,
            pos_y: -20,
            pos_z: 0,
            angle: Angle { units: 512 },
            sector: 0,
        }
    );
    assert_eq!(level.sectors.sectors().len(), 1);
    let sec: &Sector = &level.sectors.sectors()[0];
    assert_eq!(sec.wallptr, 0);
    assert_eq!(sec.wallnum, 4);
    assert_eq!(sec.ceiling_z, -4000);
    assert_eq!(sec.floor_z, 0);
    assert_eq!(sec.ceiling_stat, SectorStat { bits: 0 });
    assert_eq!(sec.filler, 0xaa);
    assert_eq!(sec.extra, -1);
    assert_eq!(level.sectors.walls().len(), 4);
    let w: &Wall = &level.sectors.walls()[1];
    assert_eq!(w.x, 1000);
    assert_eq!(w.y, 1000);
    assert_eq!(w.point2, 2);
    assert_eq!(w.next_sector, -1);
    assert_eq!(w.wall_stat, WallStat { bits: 0 });
    assert_eq!(level.sprites.len(), 1);
    let s: &Sprite = &level.sprites[0];
    assert_eq!((s.x, s.y, s.z), (5, 6, 7));
    assert_eq!(s.sprite_stat, SpriteStat { bits: 0x10 });
    assert_eq!(s.filler, 0x55);
    assert_eq!(s.sprite_type(), SpriteType::Wall);
}

#[test]
fn unsupported_version_rejected() {
    let mut bytes = small_map_bytes();
    bytes[0] = 6;
    match Level::from_slice(&bytes) {
        Err(Error::UnsupportedVersion(v)) => assert_eq!(v, 6),
        other => panic!("expected UnsupportedVersion, got {:?}", other.map(|_| ())),
    }
    bytes[0] = 8;
    assert!(Level::from_slice(&bytes).is_ok());
    bytes[0] = 9;
    assert!(Level::from_slice(&bytes).is_ok());
}

#[test]
fn truncated_stream_rejected() {
    let bytes = small_map_bytes();
    for cut in [0, 3, 4, 10, 21, 30, 80, bytes.len() - 1] {
        match Level::from_slice(&bytes[..cut]) {
            Err(Error::UnexpectedEnd) => {}
            other => panic!("cut {} should fail, got {:?}", cut, other.map(|_| ())),
        }
    }
}

#[test]
fn trailing_bytes_ignored() {
    let mut bytes = small_map_bytes();
    let clean = Level::from_slice(&bytes).unwrap();
    bytes.push(0xde);
    bytes.push(0xad);
    let noisy = Level::from_slice(&bytes).unwrap();
    assert_eq!(clean.to_bytes(), noisy.to_bytes());
}

#[test]
fn reserved_stat_bits_accepted() {
    let mut bytes = small_map_bytes();
    // set reserved bits in the sector's ceiling_stat and a wall's stat
    bytes[22 + 12] = 0xff;
    bytes[22 + 13] = 0xff;
    let level = Level::from_slice(&bytes).unwrap();
    assert_eq!(level.sectors.sectors()[0].ceiling_stat.bits, 0xffff);
    assert_eq!(level.to_bytes(), bytes);
}
