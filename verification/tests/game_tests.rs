use lib::data::initializeVideoDataPukman;
use lib::game::{dirGhostNew, ArcadeGame, Chaser, Pukman};
use lib::gfx::{Graphics, Mvec};
use lib::moves::{dist, nextdir, opposite, randir, square_diff};
use lib::util::{Rnd, Term};

fn new_graphics() -> Graphics {
    Graphics::new(Term { h: 25, w: 80 })
}

fn game() -> ArcadeGame {
    ArcadeGame::new(new_graphics())
}

#[test]
fn opposite_directions() {
    assert_eq!([opposite(0), opposite(1), opposite(2), opposite(3), opposite(4)], [2, 3, 0, 1, 4]);
    for d in 0..5 {
        assert_eq!(opposite(opposite(d)), d);
    }
}

#[test]
fn squared_distances() {
    assert_eq!(square_diff(3, 5), 4);
    assert_eq!(square_diff(-2, 1), 9);
    let m = Mvec { w: 30, h: 35, x: 0, y: 0 };
    assert_eq!(dist(3, 4, &m), 25);
    assert_eq!(dist(-1, 0, &m), 1);
}

#[test]
fn squared_distances_wrap() {
    // the raw coordinate usize::MAX reads as -1
    assert_eq!(square_diff(0, usize::MAX), 1);
    assert_eq!(square_diff(isize::MAX, 0), (isize::MAX as usize).wrapping_mul(isize::MAX as usize));
    let m = Mvec { w: 30, h: 35, x: usize::MAX, y: 0 };
    assert_eq!(dist(1, 2, &m), 8);
}

#[test]
fn runner_direction_choice() {
    let mut g = new_graphics();
    let loc = Mvec::new(30, 35, 5, 5);
    assert_eq!(nextdir(&mut g, &loc, 4, 2), 2);
    assert_eq!(nextdir(&mut g, &loc, 4, 4), 4);
    g.setFieldTile(4, 5, 3);
    assert_eq!(nextdir(&mut g, &loc, 4, 2), 4);
    assert_eq!(nextdir(&mut g, &loc, 0, 2), 0);
    g.setFieldTile(6, 5, 16);
    assert_eq!(nextdir(&mut g, &loc, 0, 2), 4);
    assert_eq!(nextdir(&mut g, &loc, 0, 1), 1);
}

#[test]
fn wandering_picks_among_best() {
    let mut g = new_graphics();
    let loc = Mvec::new(30, 35, 5, 5);
    // scores 7, 7, 4 (turning back), 7; the generator gives 0xc91f, 1 modulo 3
    assert_eq!(randir(&mut g, &loc, 0, 4, 3), 1);
    let mut r = Rnd::new();
    r.rnd();
    assert_eq!(g.rnd.rnd(), r.rnd());
}

#[test]
fn wandering_off_the_world_keeps_direction() {
    let mut g = new_graphics();
    let loc = Mvec::new(100, 35, 70, 5);
    assert_eq!(randir(&mut g, &loc, 3, 4, 3), 3);
    assert_eq!(g.rnd.rnd(), 0xc91f);
}

#[test]
fn wandering_avoids_walls() {
    let mut g = new_graphics();
    let loc = Mvec::new(30, 35, 5, 5);
    g.setFieldTile(6, 5, 16);
    g.setFieldTile(5, 6, 16);
    g.setFieldTile(5, 4, 16);
    // only the way back is open: 7 - 3 = 4 beats the walls' 1
    assert_eq!(randir(&mut g, &loc, 0, 4, 3), 2);
}

fn chaser_at(x: usize, y: usize, dir: usize, state: usize) -> Chaser {
    let mut goal = Mvec::new(30, 35, 0, 0);
    goal.x = 5;
    goal.y = 2;
    Chaser {
        tick: 0,
        sprite: 1,
        data: 0,
        dataScared: 8192,
        dataEyes: 8704,
        dir,
        locField: Mvec::new(30, 35, x, y),
        goalSpritefieldMvec: goal,
        state,
        score: 0,
    }
}

#[test]
fn chaser_heads_for_goal() {
    let mut g = new_graphics();
    let c = chaser_at(5, 5, 0, 0);
    // right 10, down 16, left (back) MAX-1, up 4
    assert_eq!(dirGhostNew(&mut g, &c, 3), 3);
    assert_eq!(g.rnd.rnd(), 0xd28b);
}

#[test]
fn frightened_chaser_flees() {
    let mut g = new_graphics();
    let c = chaser_at(5, 5, 0, 256);
    assert!(c.isScared());
    assert_eq!(dirGhostNew(&mut g, &c, 3), 1);
    // inside the home (door walkable) the scores stay as they are
    let mut g = new_graphics();
    assert_eq!(dirGhostNew(&mut g, &c, 4), 3);
}

#[test]
fn chaser_ties_broken_by_generator() {
    let mut g = new_graphics();
    let mut c = chaser_at(5, 5, 3, 0);
    c.goalSpritefieldMvec.x = 5;
    c.goalSpritefieldMvec.y = 5;
    // right, left and up all at distance 1, down is the way back
    // the generator gives 0xc91f = 51487, 1 modulo 3: the second lowest, left
    assert_eq!(dirGhostNew(&mut g, &c, 3), 2);
}

#[test]
fn chaser_states() {
    let mut c = chaser_at(5, 5, 0, 0);
    assert!(!c.isScared());
    c.scared();
    assert_eq!(c.state, 256);
    c.state = usize::MAX;
    c.scared();
    assert_eq!(c.state, usize::MAX);
    assert!(!c.isScared());
    let ml = Mvec::new(30, 35, 17, 40);
    c.setLocFgoal(&ml);
    assert_eq!((c.goalSpritefieldMvec.x, c.goalSpritefieldMvec.y), (17, 5));
}

#[test]
fn chaser_new_is_drawn() {
    let mut g = new_graphics();
    g.setFieldSize(28, 33);
    let c = Chaser::new(&mut g, 1, 0, 8192, 8704, 9, 12, 0);
    assert_eq!((c.locField.x(), c.locField.y()), (9, 12));
    assert_eq!((c.goalSpritefieldMvec.x(), c.goalSpritefieldMvec.y()), (9, 12));
    assert_eq!((g.sprites[1].locWindow.w, g.sprites[1].locWindow.h), (240, 280));
    assert_eq!((g.sprites[1].locWindow.x(), g.sprites[1].locWindow.y()), (68, 92));
    assert_eq!(g.sprites[1].data, 0);
    let c = Chaser::new(&mut g, 2, 2048, 8192, 8704, 18, 12, 1);
    assert_eq!(g.sprites[2].data, 2048 + 256 * 2);
}

#[test]
fn chaser_moves_at_half_rate() {
    let mut g = new_graphics();
    g.setFieldSize(28, 33);
    let mut c = Chaser::new(&mut g, 1, 0, 8192, 8704, 9, 12, 0);
    c.goalSpritefieldMvec.x = 9;
    c.goalSpritefieldMvec.y = 0;
    c.tick(&mut g);
    assert_eq!(c.tick, 1);
    assert_eq!(g.sprites[1].locWindow.x(), 68);
    c.tick(&mut g);
    assert_eq!(c.tick, 2);
    // one pixel on toward the right
    assert_eq!(g.sprites[1].locWindow.x(), 69);
    for _ in 0..14 {
        c.tick(&mut g);
    }
    // 16 counts: one tile on, and a new direction picked
    assert_eq!(c.tick, 16);
    assert_eq!(c.locField.x(), 10);
}

#[test]
fn caught_chaser_becomes_eyes() {
    let mut g = new_graphics();
    g.setFieldSize(28, 33);
    let mut c = Chaser::new(&mut g, 1, 0, 8192, 8704, 9, 12, 0);
    c.state = 256;
    c.goalSpritefieldMvec.x = 9;
    c.goalSpritefieldMvec.y = 12;
    c.tick(&mut g);
    assert_eq!(c.state, usize::MAX);
    assert_eq!(c.score, 10000);
    assert_eq!((c.goalSpritefieldMvec.x, c.goalSpritefieldMvec.y), (14, 15));
    // eyes count by two
    assert_eq!(c.tick, 2);
}

#[test]
fn runner_new_and_reverse() {
    let mut g = new_graphics();
    g.setFieldSize(28, 33);
    let mut p = Pukman::new(&mut g, 0, 9728, 15, 18, 2);
    assert_eq!((p.locField.x(), p.locField.y()), (16, 18));
    assert_eq!(p.tick, usize::MAX);
    assert_eq!((g.sprites[0].locWindow.w, g.sprites[0].locWindow.h), (240, 280));
    let before = p;
    p.reverse();
    assert_eq!((p.locField.x(), p.dir, p.tick % 8), (15, 0, 1));
    p.reverse();
    assert_eq!((p.locField.x, p.locField.y, p.dir, p.tick), (before.locField.x, before.locField.y, before.dir, before.tick));
    p.go(3);
    assert_eq!(p.bias, 3);
}

#[test]
fn standing_runner_is_drawn() {
    let mut g = new_graphics();
    g.setFieldSize(28, 33);
    let p = Pukman::new(&mut g, 0, 9728, 15, 18, 4);
    assert_eq!((p.locField.x(), p.tick), (15, 0));
    assert_eq!(g.sprites[0].data, 9728);
    assert_eq!((g.sprites[0].locWindow.x(), g.sprites[0].locWindow.y()), (116, 140));
}

#[test]
fn runner_eats_pills() {
    let mut g = new_graphics();
    g.setFieldSize(28, 33);
    let mut p = Pukman::new(&mut g, 0, 9728, 5, 5, 0);
    g.setFieldTile(5, 5, 1);
    g.setFieldTile(6, 5, 2);
    p.tick(&mut g);
    assert_eq!((p.locField.x(), p.score, p.hungry), (5, 1, false));
    assert_eq!(g.world[5 + 5 * 64], 0);
    for _ in 0..8 {
        p.tick(&mut g);
    }
    assert_eq!((p.locField.x(), p.score, p.hungry), (6, 1001, true));
}

#[test]
fn runner_stops_at_wall() {
    let mut g = new_graphics();
    g.setFieldSize(28, 33);
    let mut p = Pukman::new(&mut g, 0, 9728, 5, 5, 0);
    g.setFieldTile(6, 5, 16);
    p.tick(&mut g);
    assert_eq!((p.locField.x(), p.dir), (5, 4));
    let t = p.tick;
    p.tick(&mut g);
    assert_eq!((p.locField.x(), p.dir, p.tick), (5, 4, t));
    p.go(1);
    p.tick(&mut g);
    assert_eq!(p.dir, 1);
}

#[test]
fn video_data_offsets() {
    let mut g = new_graphics();
    let offsets = initializeVideoDataPukman(&mut g);
    assert_eq!(offsets, [0, 2048, 4096, 6144, 8192, 8704, 9728, 12032, 12544, 17664]);
    assert_eq!(g.memPtr, 19968);
    // the maze: top-left corner, a pill, a power pill, an empty tile
    assert_eq!(g.world[1 * 64], 4);
    assert_eq!(g.world[1 + 2 * 64], 1);
    assert_eq!(g.world[1 + 4 * 64], 2);
    assert_eq!(g.world[15 + 18 * 64], 0);
    assert!(g.world.iter().all(|t| *t <= 35));
}

#[test]
fn game_starts() {
    let g = game();
    assert_eq!((g.digitsMem, g.dataTiles, g.drinkyBirdData, g.esc), (12544, 17664, 12032, 0));
    assert_eq!((g.pukman.locField.x(), g.pukman.locField.y(), g.pukman.dir, g.pukman.tick), (16, 18, 2, usize::MAX));
    let starts = [(9, 12, 0), (18, 12, 1), (9, 18, 3), (18, 18, 2)];
    for k in 0..4 {
        let c = &g.ghosts[k];
        assert_eq!((c.locField.x(), c.locField.y(), c.dir, c.sprite), (starts[k].0, starts[k].1, starts[k].2, k + 1));
        assert_eq!(c.data, 2048 * k);
    }
    assert!(g.vid.sprites.iter().all(|s| s.en));
    assert_eq!(g.vid.sprites[15].data, 12032);
    assert_eq!((g.vid.sprites[15].locWindow.x(), g.vid.sprites[15].locWindow.y()), (104, 116));
}

#[test]
fn keyboard_handling() {
    let mut g = game();
    assert!(g.checkKeyboard(None));
    assert!(g.checkKeyboard(Some(b'l')));
    assert_eq!(g.pukman.bias, 0);
    assert!(g.checkKeyboard(Some(b's')));
    assert_eq!(g.pukman.bias, 1);
    assert!(g.checkKeyboard(Some(b'D')));
    assert_eq!(g.pukman.bias, 2);
    assert!(g.checkKeyboard(Some(b'w')));
    assert_eq!(g.pukman.bias, 3);
    assert!(g.checkKeyboard(Some(0x1b)));
    assert_eq!(g.esc, 1);
    assert!(g.checkKeyboard(Some(b'x')));
    assert_eq!((g.esc, g.pukman.bias), (0, 3));
    assert!(g.checkKeyboard(Some(0x1b)));
    assert!(!g.checkKeyboard(Some(0x1b)));
    assert_eq!(g.esc, 2);
}

#[test]
fn quit_keys() {
    for k in [3u8, b'q', b'Q'] {
        let mut g = game();
        assert!(!g.checkKeyboard(Some(k)));
        assert_eq!(g.esc, 0);
    }
}

#[test]
fn first_steps_of_the_game() {
    let mut g = game();
    let score = g.advance();
    assert_eq!(score, 0);
    assert_eq!((g.pukman.locField.x(), g.pukman.tick, g.pukman.dir), (15, 0, 2));
    for k in 0..4 {
        assert_eq!(g.ghosts[k].tick, 1);
        assert_eq!((g.ghosts[k].goalSpritefieldMvec.x, g.ghosts[k].goalSpritefieldMvec.y), (15, 18));
    }
    assert_eq!(g.vid.sprites[15].data, 12032);
    for _ in 0..8 {
        g.advance();
    }
    // the runner stepped onto (14, 18) and the mascot nodded
    assert_eq!((g.pukman.locField.x(), g.pukman.tick), (14, 8));
    assert_eq!(g.vid.sprites[15].data, 12032 + 256);
}

#[test]
fn score_shown_in_digits() {
    let mut g = game();
    g.setFps(123, 45);
    assert_eq!(g.vid.sprites[5].data, 12544 + 256 * 13);
    assert_eq!(g.vid.sprites[6].data, 12544 + 256 * 12);
    assert_eq!(g.vid.sprites[7].data, 12544 + 256 * 11);
    assert_eq!(g.vid.sprites[8].data, 12544 + 256 * 10);
    assert_eq!(g.vid.sprites[10].data, 12544 + 256 * 15);
    assert_eq!(g.vid.sprites[11].data, 12544 + 256 * 14);
    assert_eq!(g.vid.sprites[14].data, 12544 + 256 * 10);
    assert_eq!((g.vid.sprites[5].locWindow.x(), g.vid.sprites[9].locWindow.x()), (25, 5));
    // the raster view is still empty: the score's positions wrap around the window
    assert_eq!((g.vid.sprites[10].locWindow.x(), g.vid.sprites[14].locWindow.x()), (502, 482));
}

#[test]
fn frames_render_and_repeat() {
    let mut g = game();
    let score = g.advance();
    let out = g.renderFrame(0, score);
    assert!(out.starts_with(b"\x1b[H\x1b[30m"));
    assert!(out.len() > 8);
    assert_eq!((g.vid.rasterView.w, g.vid.rasterView.h), (80, 25));
    assert!(g.vid.rasterView.x + 80 <= 224);
    // the same frame again: nothing to send but the header
    let again = g.renderFrame(0, score);
    assert_eq!(again, b"\x1b[H\x1b[30m".to_vec());
}

#[test]
fn long_game_keeps_running() {
    let mut g = game();
    let keys = [b'k', b'h', b'j', b'l'];
    for i in 0..400 {
        if i % 37 == 0 {
            assert!(g.checkKeyboard(Some(keys[(i / 37) % 4])));
        }
        let score = g.advance();
        g.renderFrame(i, score);
        assert!(g.pukman.dir <= 4);
        assert!(g.vid.world.iter().all(|t| *t <= 35));
        for k in 0..4 {
            assert!(g.ghosts[k].dir < 4);
        }
    }
}

#[test]
fn chasers_leave_the_maze_alone() {
    let mut g = game();
    let world = g.vid.world.clone();
    let mut c = g.ghosts[0];
    let sprites: Vec<usize> = g.vid.sprites.iter().map(|s| s.data).collect();
    for _ in 0..50 {
        c.tick(&mut g.vid);
    }
    assert_eq!(g.vid.world, world);
    for s in 0..16 {
        if s != 1 {
            assert_eq!(g.vid.sprites[s].data, sprites[s]);
        }
    }
}

#[test]
fn game_starts_after_other_pictures() {
    let mut v = new_graphics();
    v.memorySetCharColorMap(&[('a', 1)]);
    assert_eq!(v.initializeMemory(&["aaaa"]), 0);
    let mut g = ArcadeGame::new(v);
    assert_eq!((g.digitsMem, g.dataTiles, g.drinkyBirdData), (12548, 17668, 12036));
    assert_eq!(g.pukman.data, 9732);
    for k in 0..4 {
        assert_eq!(g.ghosts[k].data, 4 + 2048 * k);
        assert_eq!((g.ghosts[k].dataScared, g.ghosts[k].dataEyes), (8196, 8708));
    }
    assert_eq!(g.vid.sprites[15].data, 12036);
    assert_eq!(g.vid.memory[0], 1);
    for i in 0..20 {
        let score = g.advance();
        g.renderFrame(i, score);
    }
}
