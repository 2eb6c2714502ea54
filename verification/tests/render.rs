use portalview::d3::{
    Renderer, BOTTOM_FRAME_COLOR, CEILING_COLOR, FLOOR_COLOR, TOP_FRAME_COLOR, WALL_COLOR,
};
use portalview::controller::update_player;
use portalview::frame::{Frame, HEIGHT, WIDTH};
use portalview::player::{Angle, Player};
use portalview::sector::{Sector, SectorStat, Sectors, Wall, WallStat};
use portalview::{Level, UpdateOpts};

fn mk_sector(wallptr: u16, wallnum: u16, ceiling_z: i32, floor_z: i32) -> Sector {
    Sector {
        wallptr,
        wallnum,
        ceiling_z,
        floor_z,
        ceiling_stat: SectorStat { bits: 0 },
        floor_stat: SectorStat { bits: 0 },
        ceiling_picnum: 0,
        ceiling_heinum: 0,
        ceiling_shade: 0,
        ceiling_pal: 0,
        ceiling_xpanning: 0,
        ceiling_ypanning: 0,
        floor_picnum: 0,
        floor_heinum: 0,
        floor_shade: 0,
        floor_pal: 0,
        floor_xpanning: 0,
        floor_ypanning: 0,
        visibility: 0,
        filler: 0,
        lotag: 0,
        hitag: 0,
        extra: -1,
    }
}

fn mk_wall(x: i32, y: i32, point2: i16, next_wall: i16, next_sector: i16) -> Wall {
    Wall {
        x,
        y,
        point2,
        next_wall,
        next_sector,
        wall_stat: WallStat { bits: 0 },
        picnum: 0,
        over_picnum: 0,
        shade: 0,
        pal: 0,
        x_repeat: 8,
        y_repeat: 8,
        x_panning: 0,
        y_panning: 0,
        lotag: 0,
        hitag: 0,
        extra: -1,
    }
}

fn player_at(x: i32, y: i32, z: i32, angle: i16, sector: i16) -> Player {
    Player {
        pos_x: x,
        pos_y: y,
        pos_z: z,
        angle: Angle { units: angle },
        sector,
    }
}

/// One square room of four solid walls around the origin.
fn single_sector_level(player: Player) -> Level {
    let sectors = vec![mk_sector(0, 4, -4000, 0)];
    let walls = vec![
        mk_wall(1000, -1000, 1, -1, -1),
        mk_wall(1000, 1000, 2, -1, -1),
        mk_wall(-1000, 1000, 3, -1, -1),
        mk_wall(-1000, -1000, 0, -1, -1),
    ];
    Level {
        version: 7,
        player,
        sectors: Sectors { sectors, walls },
        sprites: vec![],
    }
}

/// Two square rooms joined by a portal on `x = 1000`; the far room has a
/// lower ceiling and a raised floor, so both portal frames show.
fn two_sector_level(player: Player) -> Level {
    let sectors = vec![mk_sector(0, 4, -4000, 0), mk_sector(4, 4, -3000, -500)];
    let walls = vec![
        mk_wall(1000, -1000, 1, 6, 1),
        mk_wall(1000, 1000, 2, -1, -1),
        mk_wall(-1000, 1000, 3, -1, -1),
        mk_wall(-1000, -1000, 0, -1, -1),
        mk_wall(3000, -1000, 5, -1, -1),
        mk_wall(3000, 1000, 6, -1, -1),
        mk_wall(1000, 1000, 7, 0, 0),
        mk_wall(1000, -1000, 4, -1, -1),
    ];
    Level {
        version: 7,
        player,
        sectors: Sectors { sectors, walls },
        sprites: vec![],
    }
}

fn color_count(frame: &Frame, color: u32) -> usize {
    let mut n = 0;
    for y in 0..HEIGHT {
        for x in 0..WIDTH {
            if frame.get(x, y) == color {
                n += 1;
            }
        }
    }
    n
}

#[test]
fn single_sector_square_fills_frame() {
    let level = single_sector_level(player_at(0, 0, -1000, 0, 0));
    let mut renderer = Renderer::new();
    let mut frame = Frame::new();
    renderer.render(&level, &mut frame);
    assert!(renderer.coverage.is_full());
    // every pixel was painted with one of the three band colours
    for y in 0..HEIGHT {
        for x in 0..WIDTH {
            let c = frame.get(x, y);
            assert!(
                c == CEILING_COLOR || c == WALL_COLOR || c == FLOOR_COLOR,
                "unpainted pixel at ({}, {}): {:#x}",
                x,
                y,
                c
            );
        }
    }
    assert!(color_count(&frame, WALL_COLOR) > 0);
    assert!(color_count(&frame, CEILING_COLOR) > 0);
    assert!(color_count(&frame, FLOOR_COLOR) > 0);
}

#[test]
fn exact_band_rows_at_screen_center() {
    // A large square room: the front wall is parallel to the screen, so
    // its projected top and bottom rows are constant across columns and
    // can be computed by hand. With the player eye at z = -1000,
    // ceiling -4000 and floor 0 at depth 8000:
    //   top row = trunc((trunc(-3000 * 16384 / 60000) + 16384) * 200 / 32768) = 95
    //   bottom  = trunc((trunc(1000 * 16384 / 60000) + 16384) * 200 / 32768) = 101
    let sectors = vec![mk_sector(0, 4, -4000, 0)];
    let walls = vec![
        mk_wall(8000, -8000, 1, -1, -1),
        mk_wall(8000, 8000, 2, -1, -1),
        mk_wall(-8000, 8000, 3, -1, -1),
        mk_wall(-8000, -8000, 0, -1, -1),
    ];
    let level = Level {
        version: 7,
        player: player_at(0, 0, -1000, 0, 0),
        sectors: Sectors { sectors, walls },
        sprites: vec![],
    };
    let mut renderer = Renderer::new();
    let mut frame = Frame::new();
    renderer.render(&level, &mut frame);
    assert_eq!(frame.get(160, 0), CEILING_COLOR);
    assert_eq!(frame.get(160, 94), CEILING_COLOR);
    assert_eq!(frame.get(160, 95), WALL_COLOR);
    assert_eq!(frame.get(160, 100), WALL_COLOR);
    assert_eq!(frame.get(160, 101), FLOOR_COLOR);
    assert_eq!(frame.get(160, 199), FLOOR_COLOR);
}

#[test]
fn two_sector_portal_shows_far_room_and_frames() {
    let level = two_sector_level(player_at(0, 0, -1000, 0, 0));
    let mut renderer = Renderer::new();
    let mut frame = Frame::new();
    renderer.render(&level, &mut frame);
    assert!(renderer.coverage.is_full());
    // the far room's solid walls and both portal frames were painted
    assert!(color_count(&frame, TOP_FRAME_COLOR) > 0);
    assert!(color_count(&frame, BOTTOM_FRAME_COLOR) > 0);
    assert!(color_count(&frame, WALL_COLOR) > 0);
    // no pixel was left black
    assert_eq!(color_count(&frame, 0), 0);
}

#[test]
fn repeated_render_is_pixel_identical() {
    let level = two_sector_level(player_at(123, -456, -900, 300, 0));
    let mut renderer = Renderer::new();
    let mut first = Frame::new();
    renderer.render(&level, &mut first);
    let mut second = Frame::new();
    renderer.render(&level, &mut second);
    assert_eq!(first, second);
    // a fresh renderer agrees too
    let mut other = Renderer::new();
    let mut third = Frame::new();
    other.render(&level, &mut third);
    assert_eq!(first, third);
}

#[test]
fn angle_wrap_renders_identically() {
    let turn = UpdateOpts {
        forwards: 0,
        sideways: 0,
        rotate: 1,
    };
    let mut wild = single_sector_level(player_at(0, 0, -1000, 2050, 0));
    update_player(&mut wild, &turn);
    assert_eq!(wild.player.angle.units, 2051);
    let mut tame = single_sector_level(player_at(0, 0, -1000, 2, 0));
    update_player(&mut tame, &turn);
    assert_eq!(tame.player.angle.units, 3);
    let mut renderer = Renderer::new();
    let mut frame_wild = Frame::new();
    renderer.render(&wild, &mut frame_wild);
    let mut frame_tame = Frame::new();
    renderer.render(&tame, &mut frame_tame);
    assert_eq!(frame_wild, frame_tame);
}

#[test]
fn back_facing_walls_reject_and_paint_nothing() {
    // the whole square sits behind the player, who looks along +X
    let level = single_sector_level(player_at(5000, 0, -1000, 0, 0));
    let mut renderer = Renderer::new();
    let mut frame = Frame::new();
    renderer.render(&level, &mut frame);
    for y in 0..HEIGHT {
        for x in 0..WIDTH {
            assert_eq!(frame.get(x, y), 0);
        }
    }
    assert!(!renderer.coverage.is_full());
}

/// A level whose first sector covers the whole frame on its own: the
/// one portal leads into a zero-height sector, so its hole is closed.
/// A long chain of further sectors sits behind it.
fn chained_level(count: usize) -> Level {
    let mut sectors = vec![mk_sector(0, 4, -4000, 0)];
    for _ in 1..count {
        sectors.push(mk_sector(0, 0, 0, 0));
    }
    let walls = vec![
        mk_wall(1000, -1000, 1, 6, 1), // portal into the chain
        mk_wall(1000, 1000, 2, -1, -1),
        mk_wall(-1000, 1000, 3, -1, -1),
        mk_wall(-1000, -1000, 0, -1, -1),
    ];
    Level {
        version: 7,
        player: player_at(0, 0, -1000, 0, 0),
        sectors: Sectors { sectors, walls },
        sprites: vec![],
    }
}

#[test]
fn coverage_short_circuits_before_queue_is_empty() {
    let level = chained_level(10000);
    let mut renderer = Renderer::new();
    let mut frame = Frame::new();
    renderer.render(&level, &mut frame);
    assert!(renderer.coverage.is_full());
    // the portal into the chain was queued but never needed
    assert!(renderer.queue.len() > 0);
}
