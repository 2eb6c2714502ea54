use portalview::d3::Renderer;
use portalview::frame::Frame;
use portalview::player::{Angle, Player};
use portalview::sector::{Sector, SectorStat, Sectors, Wall, WallStat};
use portalview::Level;

fn mk_sector(wallptr: u16, wallnum: u16, ceiling_z: i32, floor_z: i32) -> Sector {
    Sector {
        wallptr,
        wallnum,
        ceiling_z,
        floor_z,
        ceiling_stat: SectorStat { bits: 0 },
        floor_stat: SectorStat { bits: 0 },
        ceiling_picnum: 0,
        ceiling_heinum: 0,
        ceiling_shade: 0,
        ceiling_pal: 0,
        ceiling_xpanning: 0,
        ceiling_ypanning: 0,
        floor_picnum: 0,
        floor_heinum: 0,
        floor_shade: 0,
        floor_pal: 0,
        floor_xpanning: 0,
        floor_ypanning: 0,
        visibility: 0,
        filler: 0,
        lotag: 0,
        hitag: 0,
        extra: -1,
    }
}

fn mk_wall(x: i32, y: i32, point2: i16, next_wall: i16, next_sector: i16) -> Wall {
    Wall {
        x,
        y,
        point2,
        next_wall,
        next_sector,
        wall_stat: WallStat { bits: 0 },
        picnum: 0,
        over_picnum: 0,
        shade: 0,
        pal: 0,
        x_repeat: 8,
        y_repeat: 8,
        x_panning: 0,
        y_panning: 0,
        lotag: 0,
        hitag: 0,
        extra: -1,
    }
}

fn square_sectors() -> Sectors {
    Sectors {
        sectors: vec![mk_sector(0, 4, -4000, 0)],
        walls: vec![
            mk_wall(1000, -1000, 1, -1, -1),
            mk_wall(1000, 1000, 2, -1, -1),
            mk_wall(-1000, 1000, 3, -1, -1),
            mk_wall(-1000, -1000, 0, -1, -1),
        ],
    }
}

#[test]
fn wall_loop_closes_after_wallnum_steps() {
    let geometry = square_sectors();
    let (sector, mut it) = geometry.get(0).unwrap();
    assert_eq!(sector.wallnum, 4);
    let mut ids = Vec::new();
    let mut rights = Vec::new();
    while let Some((id, left, right)) = it.next() {
        ids.push(id);
        rights.push((right.x, right.y));
        // the right endpoint is the left endpoint of the next wall
        assert_eq!(
            (right.x, right.y),
            {
                let p2 = left.point2 as usize;
                let w = &geometry.walls()[p2];
                (w.x, w.y)
            }
        );
    }
    // exactly wall_count pairs, in point2 order, back to wall_first
    assert_eq!(ids, vec![0, 1, 2, 3]);
    assert_eq!(*rights.last().unwrap(), (1000, -1000));
    assert!(it.next().is_none());
}

#[test]
fn broken_wall_loop_still_terminates() {
    // point2 points out of range: hardened to close the loop at once
    let geometry = Sectors {
        sectors: vec![mk_sector(0, 3, -4000, 0)],
        walls: vec![
            mk_wall(0, 0, 77, -1, -1),
            mk_wall(100, 0, 0, -1, -1),
            mk_wall(200, 0, 1, -1, -1),
        ],
    };
    let mut it = geometry.sector_walls(0);
    let mut yielded = 0;
    while let Some(_) = it.next() {
        yielded += 1;
    }
    // out-of-range point2 closes the loop after the first pair
    assert_eq!(yielded, 1);

    // a chain that never returns to wall_first is cut at wallnum pairs
    let geometry = Sectors {
        sectors: vec![mk_sector(0, 2, -4000, 0)],
        walls: vec![
            mk_wall(0, 0, 1, -1, -1),
            mk_wall(100, 0, 2, -1, -1),
            mk_wall(200, 0, 1, -1, -1),
        ],
    };
    let mut it = geometry.sector_walls(0);
    let mut yielded = 0;
    while let Some(_) = it.next() {
        yielded += 1;
    }
    assert_eq!(yielded, 2);
}

#[test]
fn out_of_range_sector_ids_are_refused() {
    let geometry = square_sectors();
    assert!(geometry.get(-1).is_none());
    assert!(geometry.get(1).is_none());
    assert!(geometry.get(0).is_some());
}

#[test]
fn degenerate_wall_runs_yield_nothing() {
    // wallptr outside the wall array
    let geometry = Sectors {
        sectors: vec![mk_sector(900, 4, -4000, 0)],
        walls: vec![mk_wall(0, 0, 0, -1, -1)],
    };
    assert!(geometry.sector_walls(0).next().is_none());
    // wall run longer than the wall array
    let geometry = Sectors {
        sectors: vec![mk_sector(0, 40, -4000, 0)],
        walls: vec![mk_wall(0, 0, 0, -1, -1)],
    };
    assert!(geometry.sector_walls(0).next().is_none());
}

#[test]
fn render_survives_malformed_levels() {
    let player = Player {
        pos_x: 0,
        pos_y: 0,
        pos_z: -1000,
        angle: Angle { units: 0 },
        sector: 0,
    };
    // out-of-range player sector, next_sector and point2 everywhere
    let level = Level {
        version: 7,
        player: Player { sector: 99, ..player },
        sectors: Sectors {
            sectors: vec![mk_sector(0, 4, -4000, 0), mk_sector(77, 999, 0, 0)],
            walls: vec![
                mk_wall(1000, -1000, 1, -1, 321),
                mk_wall(1000, 1000, -7, -1, -1),
                mk_wall(-1000, 1000, 3, -1, 1),
                mk_wall(-1000, -1000, 0, -1, -1),
            ],
        },
        sprites: vec![],
    };
    let mut renderer = Renderer::new();
    let mut frame = Frame::new();
    renderer.render(&level, &mut frame);

    // a sector id in range, walls hardened as they come
    let level = Level {
        version: 7,
        player,
        sectors: Sectors {
            sectors: vec![mk_sector(0, 4, -4000, 0), mk_sector(77, 999, 0, 0)],
            walls: vec![
                mk_wall(1000, -1000, 1, -1, 321),
                mk_wall(1000, 1000, -7, -1, -1),
                mk_wall(-1000, 1000, 3, -1, 1),
                mk_wall(-1000, -1000, 0, -1, -1),
            ],
        },
        sprites: vec![],
    };
    renderer.render(&level, &mut frame);
}

#[test]
fn mutual_portals_terminate_through_the_visit_backstop() {
    // two rooms whose shared wall is a portal both ways, with equal
    // heights: the hole never closes, so only the visit backstop and
    // coverage can end the traversal
    let sectors = vec![mk_sector(0, 4, -4000, 0), mk_sector(4, 4, -4000, 0)];
    let walls = vec![
        mk_wall(1000, -1000, 1, 6, 1),
        mk_wall(1000, 1000, 2, -1, 1),
        mk_wall(-1000, 1000, 3, -1, -1),
        mk_wall(-1000, -1000, 0, -1, -1),
        mk_wall(3000, -1000, 5, -1, 0),
        mk_wall(3000, 1000, 6, -1, -1),
        mk_wall(1000, 1000, 7, 0, 0),
        mk_wall(1000, -1000, 4, -1, 0),
    ];
    let level = Level {
        version: 7,
        player: Player {
            pos_x: 0,
            pos_y: 0,
            pos_z: -1000,
            angle: Angle { units: 0 },
            sector: 0,
        },
        sectors: Sectors { sectors, walls },
        sprites: vec![],
    };
    let mut renderer = Renderer::new();
    let mut frame = Frame::new();
    renderer.render(&level, &mut frame);
}
