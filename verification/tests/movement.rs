use portalview::controller::{
    intrsect_movement_with_wall, update_player, Input, InputController, INPUT_FORWARDS,
    INPUT_LOOK_LEFT,
};
use portalview::player::{Angle, Player};
use portalview::sector::{Sector, SectorStat, Sectors, Wall, WallStat};
use portalview::{Level, UpdateOpts};

fn mk_sector(wallptr: u16, wallnum: u16, ceiling_z: i32, floor_z: i32) -> Sector {
    Sector {
        wallptr,
        wallnum,
        ceiling_z,
        floor_z,
        ceiling_stat: SectorStat { bits: 0 },
        floor_stat: SectorStat { bits: 0 },
        ceiling_picnum: 0,
        ceiling_heinum: 0,
        ceiling_shade: 0,
        ceiling_pal: 0,
        ceiling_xpanning: 0,
        ceiling_ypanning: 0,
        floor_picnum: 0,
        floor_heinum: 0,
        floor_shade: 0,
        floor_pal: 0,
        floor_xpanning: 0,
        floor_ypanning: 0,
        visibility: 0,
        filler: 0,
        lotag: 0,
        hitag: 0,
        extra: -1,
    }
}

fn mk_wall(x: i32, y: i32, point2: i16, next_wall: i16, next_sector: i16) -> Wall {
    Wall {
        x,
        y,
        point2,
        next_wall,
        next_sector,
        wall_stat: WallStat { bits: 0 },
        picnum: 0,
        over_picnum: 0,
        shade: 0,
        pal: 0,
        x_repeat: 8,
        y_repeat: 8,
        x_panning: 0,
        y_panning: 0,
        lotag: 0,
        hitag: 0,
        extra: -1,
    }
}

/// Two square rooms side by side, joined by a portal on `x = 1000`.
fn two_sector_level(player: Player) -> Level {
    let sectors = vec![mk_sector(0, 4, -4000, 0), mk_sector(4, 4, -3000, -500)];
    let walls = vec![
        // sector 0: square (-1000..1000) x (-1000..1000)
        mk_wall(1000, -1000, 1, 6, 1), // east wall, portal into sector 1
        mk_wall(1000, 1000, 2, -1, -1),
        mk_wall(-1000, 1000, 3, -1, -1),
        mk_wall(-1000, -1000, 0, -1, -1),
        // sector 1: square (1000..3000) x (-1000..1000)
        mk_wall(3000, -1000, 5, -1, -1),
        mk_wall(3000, 1000, 6, -1, -1),
        mk_wall(1000, 1000, 7, 0, 0), // west wall, portal back into sector 0
        mk_wall(1000, -1000, 4, -1, -1),
    ];
    Level {
        version: 7,
        player,
        sectors: Sectors { sectors, walls },
        sprites: vec![],
    }
}

fn player_at(x: i32, y: i32, angle: i16, sector: i16) -> Player {
    Player {
        pos_x: x,
        pos_y: y,
        pos_z: -1000,
        angle: Angle { units: angle },
        sector,
    }
}

#[test]
fn segment_test_detects_wall_behind_step() {
    let left = mk_wall(1000, -1000, 1, -1, 1);
    let right = mk_wall(1000, 1000, 2, -1, -1);
    // start past the wall, the one-step backward extension crosses it
    assert!(intrsect_movement_with_wall(
        &left,
        &right,
        [1200, 0],
        [2700, 0]
    ));
    // start well before the wall: no detection
    assert!(!intrsect_movement_with_wall(
        &left,
        &right,
        [0, 0],
        [100, 0]
    ));
    // moving parallel to the wall: no detection
    assert!(!intrsect_movement_with_wall(
        &left,
        &right,
        [0, 0],
        [0, 500]
    ));
}

#[test]
fn portal_movement_switches_sector() {
    // angle 0 moves along +X (dx == forwards)
    let mut level = two_sector_level(player_at(1200, 0, 0, 0));
    let opts = UpdateOpts {
        forwards: 1500,
        sideways: 0,
        rotate: 0,
    };
    update_player(&mut level, &opts);
    assert_eq!(level.player.sector, 1);
    assert_eq!(level.player.pos_x, 2700);
    assert_eq!(level.player.pos_y, 0);
}

#[test]
fn movement_inside_sector_keeps_sector() {
    let mut level = two_sector_level(player_at(0, 0, 0, 0));
    let opts = UpdateOpts {
        forwards: 100,
        sideways: 0,
        rotate: 0,
    };
    update_player(&mut level, &opts);
    assert_eq!(level.player.sector, 0);
    assert_eq!(level.player.pos_x, 100);
    assert_eq!(level.player.pos_y, 0);
}

#[test]
fn rotation_wraps_and_displaces_along_view() {
    let mut level = two_sector_level(player_at(0, 0, 2047, 0));
    let opts = UpdateOpts {
        forwards: 0,
        sideways: 0,
        rotate: 1,
    };
    update_player(&mut level, &opts);
    assert_eq!(level.player.angle.units, 2048);
    assert_eq!(level.player.angle.masked(), 0);
    // angle unit 512 moves along +Y (dy == forwards)
    let mut level = two_sector_level(player_at(0, 0, 512, 0));
    let opts = UpdateOpts {
        forwards: 200,
        sideways: 0,
        rotate: 0,
    };
    update_player(&mut level, &opts);
    assert_eq!(level.player.pos_x, 0);
    assert_eq!(level.player.pos_y, 200);
}

#[test]
fn controller_velocities_accelerate_and_clamp() {
    let level = two_sector_level(player_at(0, 0, 0, 0));
    let mut ctl = InputController::new(&level);
    assert_eq!(ctl.max_speed, 32);
    assert_eq!(ctl.eye_height, -1000);
    let held = Input {
        bits: INPUT_FORWARDS | INPUT_LOOK_LEFT,
    };
    for _ in 0..20 {
        ctl.update_opts(&held);
    }
    assert_eq!(ctl.opts.forwards, 32); // clamped at max_speed
    assert_eq!(ctl.opts.rotate, -8); // clamped turn speed
    let released = Input { bits: 0 };
    ctl.update_opts(&released);
    assert_eq!(ctl.opts.forwards, 31); // decays towards zero
    assert_eq!(ctl.opts.rotate, -7);
}

#[test]
fn controller_update_moves_player() {
    let mut level = two_sector_level(player_at(0, 0, 0, 0));
    let mut ctl = InputController::new(&level);
    let held = Input {
        bits: INPUT_FORWARDS,
    };
    ctl.update(&held, &mut level);
    assert_eq!(level.player.pos_x, 6); // first frame of acceleration
    assert_eq!(level.player.sector, 0);
    // already at resting eye height over the floor, so no vertical glide
    assert_eq!(level.player.pos_z, -1000);
}
