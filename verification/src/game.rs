use vstd::prelude::*;
use vstd::wrapping::usize_specs;

use crate::gfx::{
    coord_raw, dir_dx, mvec_at, WORLD_VOLUME, WORLD_WIDTH, MEMORYSIZE, dir_dy, mvec_shifted, Graphics, GraphicsView, Mvec, Sprite, SPRITECOUNT, SPRITE_VOLUME,
    TILE_HEIGHT, TILE_WIDTH,
};
use crate::moves::{
    lemma_bottom_ties, randir, wander_post, next_dir, nextdir, min4, opposite, opposite_dir, rank4, readable_at, scores_usize, sort_dirs_usize, tile_of,
    tile_toward, ties3, dist, wrapped_dist,
};
use crate::util::xorshift16;
use crate::gfx::{
    centered, field_sized, initial_graphics, lemma_coord_raw_below_zero, lemma_new_reads_back, tiles_at_most, TILE_VOLUME, WINDOW_HEIGHT,
    WINDOW_WIDTH,
};
use crate::data::{initializeVideoDataPukman, pukman_offsets, pukman_video, PUKMAN_DATA_SIZE};
use crate::raster::{in_field, raster_ready, rasterized_dirty, rasterized_frame};
use crate::term_out::rows_state;

verus! {

// ---------------------------------------------------------------------------
// Sprites of the moving figures
// ---------------------------------------------------------------------------

/// Where a figure at `loc` is drawn in the window: its tile times the tile
/// size, shifted by the centring offset, around the sprite view (in machine
/// arithmetic, wrapping before the remainder).
pub open spec fn window_x(o: GraphicsView, loc: Mvec) -> int {
    usize_specs::wrapping_add(usize_specs::wrapping_mul(loc.col() as usize, TILE_WIDTH), o.center_adj.x) as int % (o.sprite_view.w as int)
}

/// Where a figure at `loc` is drawn in the window, vertically.
pub open spec fn window_y(o: GraphicsView, loc: Mvec) -> int {
    usize_specs::wrapping_add(usize_specs::wrapping_mul(loc.row() as usize, TILE_HEIGHT), o.center_adj.y) as int % (o.sprite_view.h as int)
}

/// `o` with sprite `s` placed for a figure at `loc` that has gone `step`
/// pixels in direction `dir` toward its next tile, showing picture `data`.
pub open spec fn placed(o: GraphicsView, s: int, loc: Mvec, dir: usize, step: usize, data: usize) -> GraphicsView {
    let old_s = o.sprites[s];
    let lw = old_s.locWindow;
    let at = Mvec { x: coord_raw(lw.w, window_x(o, loc) as usize), y: coord_raw(lw.h, window_y(o, loc) as usize), ..lw };
    GraphicsView {
        sprites: o.sprites.update(s, Sprite { data, locWindow: mvec_shifted(at, dir, step), ..old_s }),
        ..o
    }
}

/// A figure at `loc` can be drawn in sprite `s`.
pub open spec fn drawable(o: GraphicsView, s: usize, loc: Mvec) -> bool {
    &&& o.wf()
    &&& s < SPRITECOUNT
    &&& loc.w > 0
    &&& loc.h > 0
    &&& o.sprite_view.w > 0
    &&& o.sprite_view.h > 0
}

/// Places sprite `sprite` for a figure at `loc` that has gone `step` pixels
/// in direction `dir`, showing picture `data`.
fn place_sprite(vid: &mut Graphics, sprite: usize, loc: &Mvec, dir: usize, step: usize, data: usize)
    requires
        drawable(old(vid)@, sprite, *loc),
    ensures
        final(vid)@ == placed(old(vid)@, sprite as int, *loc, dir, step, data),
{
    // location
    let (x, y) = (
        loc.x().wrapping_mul(TILE_WIDTH).wrapping_add(vid.spriteTileCenterAdj.x) % vid.spriteView.w,
        loc.y().wrapping_mul(TILE_HEIGHT).wrapping_add(vid.spriteTileCenterAdj.y) % vid.spriteView.h,
    );
    vid.setSpriteLocWindow(sprite, x, y);
    // step
    vid.shiftSprite(sprite, dir, step);
    // animation
    vid.setSpriteIdx(sprite, data);
    assert(vid@.sprites =~= placed(old(vid)@, sprite as int, *loc, dir, step, data).sprites);
}

// ---------------------------------------------------------------------------
// The chasers
// ---------------------------------------------------------------------------

/// A chaser: its animation counter, sprite and pictures, its direction, its
/// tile, the tile it heads for, its state (0 hunting, `usize::MAX` eaten
/// and heading home as eyes, anything else frightened) and the points it
/// gave away.
#[derive(Clone, Copy)]
pub struct Chaser {
    pub tick: usize,
    pub sprite: usize,
    pub data: usize,
    pub dataScared: usize,
    pub dataEyes: usize,
    pub dir: usize,
    pub locField: Mvec,
    pub goalSpritefieldMvec: Mvec,
    pub state: usize,
    pub score: usize,
}

/// Whether a chaser in state `state` is frightened.
pub open spec fn scared_state(state: usize) -> bool {
    0 < state && state != usize::MAX
}

/// The picture a chaser shows: the eyes for its direction when eaten, its
/// body for its direction and animation frame when hunting, the frightened
/// body for the animation frame otherwise (in machine arithmetic, wrapping).
pub open spec fn ghost_picture(g: Chaser) -> usize {
    let frame: usize = g.tick / 2 / 8 % 2;
    if g.state == usize::MAX {
        usize_specs::wrapping_add(g.dataEyes, usize_specs::wrapping_mul(SPRITE_VOLUME, g.dir))
    } else if g.state == 0 {
        usize_specs::wrapping_add(
            g.data,
            usize_specs::wrapping_mul(SPRITE_VOLUME, usize_specs::wrapping_add(usize_specs::wrapping_mul(g.dir, 2), frame)),
        )
    } else {
        usize_specs::wrapping_add(g.dataScared, (SPRITE_VOLUME * frame) as usize)
    }
}

/// The score of direction `d` for chaser `g` heading for its goal: the
/// squared distance (`wrapped_dist`) from the next tile to the goal where it
/// may walk (below `wallIdx`), else the largest number; turning back scores
/// one less than the largest number.  A frightened chaser outside its home
/// (`wallIdx` 3) turns the scores around, wrapping, so that it flees.
pub open spec fn chase_score(o: GraphicsView, g: Chaser, wallIdx: usize, d: int) -> int {
    let loc = g.locField;
    let t = tile_toward(o, loc, d);
    let base: int = if (t as usize) < wallIdx {
        wrapped_dist(
            (loc.col() + dir_dx(d as usize)) as isize,
            (loc.row() + dir_dy(d as usize)) as isize,
            g.goalSpritefieldMvec,
        ) as int
    } else {
        usize::MAX as int
    };
    let s1: int = if d == opposite_dir(g.dir) { usize::MAX - 1 } else { base };
    if scared_state(g.state) && wallIdx == 3 {
        usize_specs::wrapping_sub(usize::MAX / 2, s1 as usize) as int
    } else {
        s1
    }
}

/// The scores of the four directions for chaser `g`.
pub open spec fn chase_scores(o: GraphicsView, g: Chaser, wallIdx: usize) -> Seq<int> {
    seq![chase_score(o, g, wallIdx, 0), chase_score(o, g, wallIdx, 1), chase_score(o, g, wallIdx, 2), chase_score(o, g, wallIdx, 3)]
}

/// What `dirGhostNew` needs: the maze readable around the chaser, and a
/// direction whose opposite is one of the four (not standing, 4).
pub open spec fn chase_ready(o: GraphicsView, g: Chaser, wallIdx: usize) -> bool {
    &&& o.wf()
    &&& readable_at(g.locField)
    &&& g.dir != 4
}

/// Whether `r` is the direction a chaser takes with scores `sc` when the
/// generator gives `n`: ranked by score, ties by direction number, it is the
/// one ranked `n` modulo the number of lowest-scored directions (at most
/// three) from the bottom.
pub open spec fn chase_pick(sc: Seq<int>, n: u16, r: usize) -> bool {
    r < 4 && rank4(sc, r as int) == (n as int) % ties3(sc, min4(sc))
}

/// `o` with the window size of sprite `s` set to the size of the sprite view.
pub open spec fn sized(o: GraphicsView, s: int) -> GraphicsView {
    let sp = o.sprites[s];
    GraphicsView {
        sprites: o.sprites.update(s, Sprite { locWindow: Mvec { w: o.sprite_view.w, h: o.sprite_view.h, ..sp.locWindow }, ..sp }),
        ..o
    }
}

/// Sizes the window of sprite `sprite` to the sprite view.
fn size_sprite(vid: &mut Graphics, sprite: usize)
    requires
        old(vid)@.wf(),
        sprite < SPRITECOUNT,
    ensures
        final(vid)@ == sized(old(vid)@, sprite as int),
{
    let mut sp = vid.sprites[sprite];
    sp.locWindow.w = vid.spriteView.w;
    sp.locWindow.h = vid.spriteView.h;
    vid.sprites.set(sprite, sp);
}

/// What `dirGhostNew` gives: one step of the generator to `n`, and the
/// direction that `chase_pick` names.
pub open spec fn chase_post(o: GraphicsView, g: Chaser, wallIdx: usize, r: usize, o2: GraphicsView) -> bool {
    &&& o2 == (GraphicsView { rnd: xorshift16(o.rnd), ..o })
    &&& chase_pick(chase_scores(o, g, wallIdx), xorshift16(o.rnd), r)
}

/// Whether chaser `g` stands on the same tile as its goal.
pub open spec fn at_goal(g: Chaser) -> bool {
    g.locField.col() == g.goalSpritefieldMvec.col() && g.locField.row() == g.goalSpritefieldMvec.row()
}

/// A chaser's move before it picks a direction: caught on its goal while
/// frightened, it becomes eyes and gives 10000 points; eyes head home (tile
/// 14, 15) and may pass the door; the counter advances, by two for eyes, and
/// an odd count ends the move of a chaser that is not eyes (they move at
/// half speed); every 16 counts it steps one tile on; eyes at home become a
/// hunting chaser; a chaser inside its home heads for the exit (tile 13, 0)
/// and hunts.  Gives the chaser, the first tile it may not walk on, and
/// whether the move goes on.
pub open spec fn chaser_advance(g: Chaser) -> (Chaser, usize, bool) {
    let caught = usize_specs::wrapping_add(g.state, 1) > 1 && at_goal(g);
    let g1 = if caught { Chaser { state: usize::MAX, score: usize_specs::wrapping_add(g.score, 10000), ..g } } else { g };
    let g2 = if g1.state == usize::MAX {
        Chaser { goalSpritefieldMvec: Mvec { x: 14, y: 15, ..g1.goalSpritefieldMvec }, ..g1 }
    } else {
        g1
    };
    let wall1: usize = if g1.state == usize::MAX { 4 } else { 3 };
    let t1 = usize_specs::wrapping_add(g2.tick, 1);
    if t1 & 1 == 1 && g2.state != usize::MAX {
        (Chaser { tick: t1, ..g2 }, wall1, false)
    } else {
        let t2 = if t1 & 1 == 1 { usize_specs::wrapping_add(t1, 1) } else { t1 };
        let g3 = Chaser {
            tick: t2,
            locField: if (t2 / 2) % 8 == 0 { mvec_shifted(g2.locField, g2.dir, 1) } else { g2.locField },
            ..g2
        };
        let g4 = if g3.state == usize::MAX && at_goal(g3) { Chaser { state: 0, ..g3 } } else { g3 };
        let in_box = g4.state != usize::MAX && 10 <= g4.locField.col() <= 17 && 13 <= g4.locField.row() <= 17;
        let g5 = if in_box {
            Chaser { goalSpritefieldMvec: Mvec { x: 13, y: 0, ..g4.goalSpritefieldMvec }, state: 0, ..g4 }
        } else {
            g4
        };
        (g5, if in_box { 4 } else { wall1 }, true)
    }
}

/// `o` with chaser `g` drawn.
pub open spec fn chaser_drawn(o: GraphicsView, g: Chaser) -> GraphicsView {
    placed(o, g.sprite as int, g.locField, g.dir, (g.tick / 2 % 8) as usize, ghost_picture(g))
}

/// Chaser `g` can be drawn in `o`.
pub open spec fn chaser_drawable(o: GraphicsView, g: Chaser) -> bool {
    drawable(o, g.sprite, g.locField)
}

/// What a chaser's move needs: positions with a size, and for the chaser
/// after `chaser_advance`: a drawable sprite whichever direction it takes,
/// and what the direction it picks needs.
pub open spec fn chaser_tick_ready(o: GraphicsView, g: Chaser) -> bool {
    let (g5, wall, go) = chaser_advance(g);
    &&& o.wf()
    &&& g.locField.w > 0
    &&& g.locField.h > 0
    &&& g.goalSpritefieldMvec.w > 0
    &&& g.goalSpritefieldMvec.h > 0
    &&& go ==> {
        &&& forall|d: usize| d < 4 || d == g5.dir ==> #[trigger] chaser_drawable(o, Chaser { dir: d, ..g5 })
        &&& (g5.tick / 2) % 8 == 0 ==> chase_ready(o, g5, wall)
    }
}

/// Whether chaser `g2` and graphics `o2` can follow chaser `g` and
/// graphics `o` by one move of the chaser: see `chaser_advance`; when the
/// chaser has stepped onto a new tile it picks its direction, wandering at
/// random (`wander_post`) when it hunts and the generator's number is a
/// multiple of 8, else heading for its goal (`chase_post`); then it is drawn.
pub open spec fn chaser_ticked(g: Chaser, o: GraphicsView, g2: Chaser, o2: GraphicsView) -> bool {
    let (g5, wall, go) = chaser_advance(g);
    if !go {
        g2 == g5 && o2 == o
    } else if (g5.tick / 2) % 8 != 0 {
        g2 == g5 && o2 == chaser_drawn(o, g5)
    } else {
        let n1 = xorshift16(o.rnd);
        let o1 = if g5.state == 0 { GraphicsView { rnd: n1, ..o } } else { o };
        let d = g2.dir;
        &&& g2 == (Chaser { dir: d, ..g5 })
        &&& exists|mid: GraphicsView| {
            &&& #[trigger] chaser_drawn(mid, g2) == o2
            &&& if g5.state == 0 && n1 & 7 == 0 {
                wander_post(o1, g5.locField, g5.dir, 4, wall, d, mid)
            } else {
                chase_post(o1, g5, wall, d, mid)
            }
        }
    }
}

/// The pictures of a chaser lie inside memory, whatever its direction and
/// state.
pub open spec fn chaser_pictures_fit(g: Chaser) -> bool {
    &&& g.data + SPRITE_VOLUME * 8 <= MEMORYSIZE
    &&& g.dataScared + SPRITE_VOLUME * 2 <= MEMORYSIZE
    &&& g.dataEyes + SPRITE_VOLUME * 4 <= MEMORYSIZE
}

/// A product that fits does not wrap.
proof fn lemma_wrapping_mul_fits(x: usize, y: usize)
    requires
        x * y <= usize::MAX,
    ensures
        usize_specs::wrapping_mul(x, y) == x * y,
{
    assert(0 <= x * y) by (nonlinear_arith);
    vstd::arithmetic::div_mod::lemma_small_mod((x * y) as nat, (usize::MAX + 1) as nat);
}

/// The picture of a chaser in one of the four directions lies inside memory.
proof fn lemma_ghost_picture_fits(g: Chaser)
    requires
        g.dir < 4,
        chaser_pictures_fit(g),
    ensures
        ghost_picture(g) + SPRITE_VOLUME <= MEMORYSIZE,
{
    let frame: usize = g.tick / 2 / 8 % 2;
    lemma_wrapping_mul_fits(SPRITE_VOLUME, g.dir);
    lemma_wrapping_mul_fits(g.dir, 2);
    lemma_wrapping_mul_fits(SPRITE_VOLUME, (g.dir * 2 + frame) as usize);
}

/// The picture of a runner that moves or stands lies inside memory.
proof fn lemma_pukman_picture_fits(p: Pukman)
    requires
        p.dir <= 4,
        p.data + SPRITE_VOLUME * 11 <= MEMORYSIZE,
    ensures
        pukman_picture(p) + SPRITE_VOLUME <= MEMORYSIZE,
{
    lemma_wrapping_mul_fits(p.dir, 2);
    lemma_wrapping_mul_fits(SPRITE_VOLUME, (p.dir * 2 + 1) as usize);
    lemma_wrapping_mul_fits(SPRITE_VOLUME, (p.dir * 2 + 2) as usize);
    lemma_wrapping_mul_fits(SPRITE_VOLUME, 0);
}

/// A chaser on the sprite field of the game (30 by 35 tiles), with a goal on
/// it, in one of the four directions, with its pictures in memory.
pub open spec fn chaser_in_game(g: Chaser) -> bool {
    &&& g.sprite < SPRITECOUNT
    &&& g.locField.w == 30
    &&& g.locField.h == 35
    &&& g.goalSpritefieldMvec.w == 30
    &&& g.goalSpritefieldMvec.h == 35
    &&& g.dir < 4
    &&& chaser_pictures_fit(g)
}

/// The views of the game: a sprite view of 240 by 280 pixels and the
/// centring offset of 4 pixels below zero.
pub open spec fn game_views(o: GraphicsView) -> bool {
    &&& o.wf()
    &&& o.sprite_view == mvec_at(240, 280, 0, 0)
    &&& o.center_adj == mvec_at(240, 280, (usize::MAX - 3) as usize, (usize::MAX - 3) as usize)
}

/// A chaser in the game can always make its move.
pub proof fn lemma_chaser_ready(o: GraphicsView, g: Chaser)
    requires
        game_views(o),
        chaser_in_game(g),
    ensures
        chaser_tick_ready(o, g),
{
    lemma_coord_raw_below_zero(240, 4);
    lemma_coord_raw_below_zero(280, 4);
    let (g5, wall, go) = chaser_advance(g);
    let loc = g5.locField;
    assert(loc.w == 30 && loc.h == 35);
    assert(0 <= loc.col() < 30 && 0 <= loc.row() < 35);
    assert(g5.dir == g.dir && g5.sprite == g.sprite && chaser_pictures_fit(g5));
    assert forall|d: usize| d < 4 || d == g5.dir implies #[trigger] chaser_drawable(o, Chaser { dir: d, ..g5 }) by {
        assert(d < 4);
    }
}

/// One move of a chaser in the game keeps it in the game, and changes
/// nothing of the graphics but its own sprite, which keeps its window size
/// and shows a picture inside memory, and the generator.
pub proof fn lemma_chaser_ticked_keeps(o: GraphicsView, g: Chaser, g2: Chaser, o2: GraphicsView)
    requires
        game_views(o),
        chaser_in_game(g),
        chaser_ticked(g, o, g2, o2),
    ensures
        chaser_in_game(g2),
        g2.sprite == g.sprite,
        g2.data == g.data,
        g2.dataScared == g.dataScared,
        g2.dataEyes == g.dataEyes,
        o2 == (GraphicsView { sprites: o2.sprites, rnd: o2.rnd, ..o }),
        o2.sprites.len() == o.sprites.len(),
        forall|j: int| 0 <= j < o.sprites.len() && j != g.sprite ==> #[trigger] o2.sprites[j] == o.sprites[j],
        o2.sprites[g.sprite as int].locWindow.w == o.sprites[g.sprite as int].locWindow.w,
        o2.sprites[g.sprite as int].locWindow.h == o.sprites[g.sprite as int].locWindow.h,
        o2.sprites[g.sprite as int].data + SPRITE_VOLUME <= MEMORYSIZE || o2.sprites == o.sprites,
{
    let (g5, wall, go) = chaser_advance(g);
    assert(chaser_in_game(g5));
    if go && (g5.tick / 2) % 8 == 0 {
        let n1 = xorshift16(o.rnd);
        let o1 = if g5.state == 0 { GraphicsView { rnd: n1, ..o } } else { o };
        let mid = choose|mid: GraphicsView| {
            &&& #[trigger] chaser_drawn(mid, g2) == o2
            &&& if g5.state == 0 && n1 & 7 == 0 {
                wander_post(o1, g5.locField, g5.dir, 4, wall, g2.dir, mid)
            } else {
                chase_post(o1, g5, wall, g2.dir, mid)
            }
        };
        assert(mid == (GraphicsView { rnd: mid.rnd, ..o }));
        assert(g2.dir < 4);
    }
    lemma_ghost_picture_fits(g2);
}

/// Whether position `m` lies in the chasers' home (columns 10 to 17, rows
/// 13 to 17, walls included).
pub open spec fn in_home(m: Mvec) -> bool {
    10 <= m.col() <= 17 && 13 <= m.row() <= 17
}

/// Eyes come back to life at home: when an eaten chaser (state
/// `usize::MAX`) ends its move on its home tile (14, 15), it is a hunting
/// chaser again (state 0), heading for the home's exit at (13, 0); ending
/// its move anywhere else, it is still eyes, heading home.
pub proof fn lemma_eyes_revive_at_home(g: Chaser, o: GraphicsView, g2: Chaser, o2: GraphicsView)
    requires
        chaser_ticked(g, o, g2, o2),
        g.state == usize::MAX,
        g.locField.w > 0,
        g.locField.h > 0,
        g.goalSpritefieldMvec.w > 15,
        g.goalSpritefieldMvec.h > 15,
    ensures
        g2.locField.col() == 14 && g2.locField.row() == 15 ==> {
            &&& g2.state == 0
            &&& g2.goalSpritefieldMvec.x == 13
            &&& g2.goalSpritefieldMvec.y == 0
        },
        !(g2.locField.col() == 14 && g2.locField.row() == 15) ==> {
            &&& g2.state == usize::MAX
            &&& g2.goalSpritefieldMvec.x == 14
            &&& g2.goalSpritefieldMvec.y == 15
        },
{
    vstd::arithmetic::div_mod::lemma_small_mod(14, g.goalSpritefieldMvec.w as nat);
    vstd::arithmetic::div_mod::lemma_small_mod(15, g.goalSpritefieldMvec.h as nat);
    let (g5, wall, go) = chaser_advance(g);
    assert(go);
    assert(g2.locField == g5.locField);
}

impl Chaser {
    /// A hunting chaser in sprite `sprite` at tile (`x`, `y`) heading for
    /// that same tile, moving in `dir`; its sprite is sized to the sprite
    /// view and drawn.
    pub fn new(
        vid: &mut Graphics,
        sprite: usize,
        data: usize,
        dataScared: usize,
        dataEyes: usize,
        x: usize,
        y: usize,
        dir: usize,
    ) -> (g: Chaser)
        requires
            old(vid)@.wf(),
            sprite < SPRITECOUNT,
            chaser_drawable(
                sized(old(vid)@, sprite as int),
                Chaser {
                    tick: 0,
                    sprite,
                    data,
                    dataScared,
                    dataEyes,
                    dir,
                    locField: Mvec { w: old(vid)@.sprite_field.w, h: old(vid)@.sprite_field.h, x: coord_raw(old(vid)@.sprite_field.w, x), y: coord_raw(old(vid)@.sprite_field.h, y) },
                    goalSpritefieldMvec: Mvec { w: old(vid)@.sprite_field.w, h: old(vid)@.sprite_field.h, x: coord_raw(old(vid)@.sprite_field.w, x), y: coord_raw(old(vid)@.sprite_field.h, y) },
                    state: 0,
                    score: 0,
                },
            ),
        ensures
            g == (Chaser {
                tick: 0,
                sprite,
                data,
                dataScared,
                dataEyes,
                dir,
                locField: Mvec { w: old(vid)@.sprite_field.w, h: old(vid)@.sprite_field.h, x: coord_raw(old(vid)@.sprite_field.w, x), y: coord_raw(old(vid)@.sprite_field.h, y) },
                goalSpritefieldMvec: Mvec { w: old(vid)@.sprite_field.w, h: old(vid)@.sprite_field.h, x: coord_raw(old(vid)@.sprite_field.w, x), y: coord_raw(old(vid)@.sprite_field.h, y) },
                state: 0,
                score: 0,
            }),
            final(vid)@ == chaser_drawn(sized(old(vid)@, sprite as int), g),
    {
        let (locField, goalSpritefieldMvec) = (
            Mvec::new(vid.spriteField.w, vid.spriteField.h, x, y),
            Mvec::new(vid.spriteField.w, vid.spriteField.h, x, y),
        );
        size_sprite(vid, sprite);
        let g = Chaser {
            tick: 0,
            sprite,
            data,
            dataScared,
            dataEyes,
            dir,
            locField,
            goalSpritefieldMvec,
            state: 0,
            score: 0,
        };
        g.render(vid);
        g
    }

    /// Draws the chaser: its sprite at its tile, gone half its counter
    /// (modulo 8) pixels toward the next tile, showing `ghost_picture`.
    pub fn render(&self, vid: &mut Graphics)
        requires
            chaser_drawable(old(vid)@, *self),
        ensures
            final(vid)@ == chaser_drawn(old(vid)@, *self),
    {
        let frame = self.tick / 2 / 8 % 2;
        let data = if self.state == usize::MAX {
            self.dataEyes.wrapping_add(SPRITE_VOLUME.wrapping_mul(self.dir))
        } else if self.state == 0 {
            self.data.wrapping_add(SPRITE_VOLUME.wrapping_mul(self.dir.wrapping_mul(2).wrapping_add(frame)))
        } else {
            self.dataScared.wrapping_add(SPRITE_VOLUME * frame)
        };
        place_sprite(vid, self.sprite, &self.locField, self.dir, self.tick / 2 % 8, data);
    }

    /// One move of the chaser (see `chaser_advance`); when it has stepped
    /// onto a new tile it picks its direction: a hunting chaser wanders at
    /// random (`randir`) when the generator's number is a multiple of 8,
    /// otherwise it heads for its goal (`dirGhostNew`); then it is drawn.
    pub fn tick(&mut self, vid: &mut Graphics)
        requires
            chaser_tick_ready(old(vid)@, *old(self)),
        ensures
            chaser_ticked(*old(self), old(vid)@, *final(self), final(vid)@),
    {
        let mut wallIdx: usize = 3;

        if 1 < self.state.wrapping_add(1) && self.locField.equal(&self.goalSpritefieldMvec) {
            // chaser eaten, becomes eyes
            self.state = usize::MAX;
            self.score = self.score.wrapping_add(10000);
        }

        if self.state == usize::MAX {
            // Eyes' goal is home base
            self.goalSpritefieldMvec.x = 14;
            self.goalSpritefieldMvec.y = 15;
            wallIdx = 4;  // can walk through door
        }

        self.tick = self.tick.wrapping_add(1);

        // Chasers move at half rate, eyes don't
        if 1 == (self.tick & 1) {
            if self.state == usize::MAX {
                self.tick = self.tick.wrapping_add(1)
            } else {
                return
            }
        }

        if 0 == (self.tick / 2) % 8 {
            self.locField.shift(self.dir, 1);
        }

        if self.state == usize::MAX && self.locField.equal(&self.goalSpritefieldMvec) {
            // eyes regenerate to a chaser in base
            self.state = 0;
        }

        // Chasers want to leave box (coordinates includes box border)
        if self.state != usize::MAX && 10 <= self.locField.x() && self.locField.x() <= 17 && 13 <= self.locField.y()
            && self.locField.y() <= 17 {
            self.goalSpritefieldMvec.x = 13;
            self.goalSpritefieldMvec.y = 0;
            self.state = 0;
            wallIdx = 4
        }

        if 0 == (self.tick / 2) % 8 {
            self.dir = if self.state == 0 && vid.rnd.rnd() & 7 == 0 {
                randir(vid, &self.locField, self.dir, 4, wallIdx)  // sometimes move randomly
            } else {
                dirGhostNew(vid, &self, wallIdx)
            };
            let ghost o2 = vid@;
            proof {
                let (g5, wall, go) = chaser_advance(*old(self));
                assert(*self == Chaser { dir: self.dir, ..g5 });
                assert(self.dir < 4 || self.dir == g5.dir);
                assert(chaser_drawable(old(vid)@, Chaser { dir: self.dir, ..g5 }));
            }
            self.render(vid);
            assert(chaser_drawn(o2, *self) == vid@);
        } else {
            self.render(vid);
        }
    }

    /// Whether the chaser is frightened (see `scared_state`).
    pub fn isScared(&self) -> (b: bool)
        ensures
            b == scared_state(self.state),
    {
        0 < self.state && usize::MAX != self.state
    }

    /// Sets the goal to the tile of `ml`.
    pub fn setLocFgoal(&mut self, ml: &Mvec)
        requires
            ml.w > 0,
            ml.h > 0,
        ensures
            *final(self) == (Chaser {
                goalSpritefieldMvec: Mvec { x: ml.col() as usize, y: ml.row() as usize, ..old(self).goalSpritefieldMvec },
                ..*old(self)
            }),
    {
        self.goalSpritefieldMvec.x = ml.x();
        self.goalSpritefieldMvec.y = ml.y();
    }

    /// Frightens the chaser, unless it is eaten.
    pub fn scared(&mut self)
        ensures
            *final(self) == (Chaser { state: if old(self).state != usize::MAX { 256 } else { old(self).state }, ..*old(self) }),
    {
        if self.state != usize::MAX {
            self.state = 256
        }
    }
}

/// The chaser's direction toward its goal (see `chase_score`, `chase_pick`).
pub fn dirGhostNew(vid: &mut Graphics, chaser: &Chaser, wallIdx: usize) -> (r: usize)
    requires
        chase_ready(old(vid)@, *chaser, wallIdx),
    ensures
        final(vid)@ == (GraphicsView { rnd: xorshift16(old(vid)@.rnd), ..old(vid)@ }),
        chase_pick(chase_scores(old(vid)@, *chaser, wallIdx), xorshift16(old(vid)@.rnd), r),
{
    let loc = &chaser.locField;  // modulo spriteField
    let xg = loc.x();
    let yg = loc.y();
    let tiles = vid.getFieldTiles(xg, yg, tile_of);
    proof {
        assert(tiles[0].0 == tile_toward(vid@, *loc, 0));
        assert(tiles[1].0 == tile_toward(vid@, *loc, 1));
        assert(tiles[2].0 == tile_toward(vid@, *loc, 2));
        assert(tiles[3].0 == tile_toward(vid@, *loc, 3));
    }
    let validDirs = score_chase(vid, &tiles, chaser, wallIdx);
    let ghost sc = chase_scores(vid@, *chaser, wallIdx);
    let sorted = sort_dirs_usize(validDirs);
    let r = // Tied best scored chosen randomly
    if sorted[0].0 == sorted[1].0 {
        if sorted[1].0 == sorted[2].0 {
            3
        } else {
            2
        }
    } else {
        1
    };
    proof {
        lemma_bottom_ties(sc, sorted[0].1 as int, sorted[1].1 as int, sorted[2].1 as int);
    }
    let n = vid.rnd.rnd();
    sorted[n as usize % r].1
}

/// Scores the four directions toward `tiles` for `chaser`.
fn score_chase(vid: &Graphics, tiles: &[(u8, usize, isize, isize); 4], chaser: &Chaser, wallIdx: usize) -> (v: [(usize, usize); 4])
    requires
        chase_ready(vid@, *chaser, wallIdx),
        forall|d: int| 0 <= d < 4 ==> #[trigger] tiles[d].1 == d,
        forall|d: int| 0 <= d < 4 ==> #[trigger] tiles[d].0 == tile_toward(vid@, chaser.locField, d),
        forall|d: int| 0 <= d < 4 ==> #[trigger] tiles[d].2 == chaser.locField.col() + dir_dx(d as usize),
        forall|d: int| 0 <= d < 4 ==> #[trigger] tiles[d].3 == chaser.locField.row() + dir_dy(d as usize),
    ensures
        forall|d: int| 0 <= d < 4 ==> #[trigger] v[d].1 == d,
        scores_usize(v) == chase_scores(vid@, *chaser, wallIdx),
{
    // Available directions scored with the distance to the goal, otherwise MAX
    let mut validDirs: [(usize, usize); 4] = [
        (if (tiles[0].0 as usize) < wallIdx { dist(tiles[0].2, tiles[0].3, &chaser.goalSpritefieldMvec) } else { usize::MAX }, tiles[0].1),
        (if (tiles[1].0 as usize) < wallIdx { dist(tiles[1].2, tiles[1].3, &chaser.goalSpritefieldMvec) } else { usize::MAX }, tiles[1].1),
        (if (tiles[2].0 as usize) < wallIdx { dist(tiles[2].2, tiles[2].3, &chaser.goalSpritefieldMvec) } else { usize::MAX }, tiles[2].1),
        (if (tiles[3].0 as usize) < wallIdx { dist(tiles[3].2, tiles[3].3, &chaser.goalSpritefieldMvec) } else { usize::MAX }, tiles[3].1),
    ];
    let od = opposite(chaser.dir);
    validDirs[od].0 = usize::MAX - 1;  // Opposite direction is MAX-1
    if chaser.isScared() && wallIdx == 3 {
        // "invert" scores so "away from the runner" chosen unless in box
        validDirs[0].0 = (usize::MAX / 2).wrapping_sub(validDirs[0].0);
        validDirs[1].0 = (usize::MAX / 2).wrapping_sub(validDirs[1].0);
        validDirs[2].0 = (usize::MAX / 2).wrapping_sub(validDirs[2].0);
        validDirs[3].0 = (usize::MAX / 2).wrapping_sub(validDirs[3].0);
    }
    assert(scores_usize(validDirs) =~= chase_scores(vid@, *chaser, wallIdx));
    validDirs
}


// ---------------------------------------------------------------------------
// The runner
// ---------------------------------------------------------------------------

/// The runner: its animation counter, sprite and pictures, its tile, its
/// direction (4 standing), the direction it wants, whether it just ate a
/// power pill, and its points.
#[derive(Clone, Copy)]
pub struct Pukman {
    pub tick: usize,
    pub sprite: usize,
    pub data: usize,
    pub locField: Mvec,
    pub dir: usize,
    pub bias: usize,
    pub hungry: bool,
    pub score: usize,
}

/// The picture the runner shows: closed when standing; moving, closed,
/// half open and wide open in turn for its direction (in machine
/// arithmetic, wrapping).
pub open spec fn pukman_picture(p: Pukman) -> usize {
    let frame: usize = if p.dir == 4 {
        0
    } else if p.tick % 4 == 1 || p.tick % 4 == 3 {
        usize_specs::wrapping_add(usize_specs::wrapping_mul(p.dir, 2), 1)
    } else if p.tick % 4 == 2 {
        usize_specs::wrapping_add(usize_specs::wrapping_mul(p.dir, 2), 2)
    } else {
        0
    };
    usize_specs::wrapping_add(p.data, usize_specs::wrapping_mul(SPRITE_VOLUME, frame))
}

/// `o` with runner `p` drawn.
pub open spec fn pukman_drawn(o: GraphicsView, p: Pukman) -> GraphicsView {
    placed(o, p.sprite as int, p.locField, p.dir, (p.tick % 8) as usize, pukman_picture(p))
}

/// Runner `p` can be drawn in `o`.
pub open spec fn pukman_drawable(o: GraphicsView, p: Pukman) -> bool {
    drawable(o, p.sprite, p.locField)
}

/// The runner turned around: when it is between two tiles it first takes
/// the tile it was heading for as its own and counts the step back, so that
/// it goes back the way it came.
pub open spec fn pukman_reversed(p: Pukman) -> Pukman {
    let step = p.tick % 8;
    let p1 = if 0 < step {
        Pukman {
            locField: mvec_shifted(p.locField, p.dir, 1),
            tick: usize_specs::wrapping_sub(usize_specs::wrapping_add(p.tick, 8), (2 * step) as usize),
            ..p
        }
    } else {
        p
    };
    Pukman { dir: opposite_dir(p1.dir), ..p1 }
}

/// The step counter after turning around between two tiles: 8 steps on,
/// less twice the steps already gone, wrapping.
proof fn lemma_step_turned(tick: usize)
    requires
        0 < tick % 8,
    ensures
        usize_specs::wrapping_sub(usize_specs::wrapping_add(tick, 8), (2 * (tick % 8)) as usize) % 8 == 8 - tick % 8,
        ({
            let t1 = usize_specs::wrapping_sub(usize_specs::wrapping_add(tick, 8), (2 * (tick % 8)) as usize);
            usize_specs::wrapping_sub(usize_specs::wrapping_add(t1, 8), (2 * (8 - tick % 8)) as usize) == tick
        }),
{
    let s: int = (tick % 8) as int;
    let r: int = usize::MAX + 1;
    if usize::BITS == 64 {
        assert(usize::MAX == 0xffff_ffff_ffff_ffff);
    } else {
        assert(usize::MAX == 0xffff_ffff);
    }
    assert(r % 8 == 0);
    let q = r / 8;
    vstd::arithmetic::div_mod::lemma_fundamental_div_mod(r, 8);
    vstd::arithmetic::div_mod::lemma_fundamental_div_mod(tick as int, 8);
    let t1 = usize_specs::wrapping_sub(usize_specs::wrapping_add(tick, 8), (2 * s) as usize);
    let base: int = (tick / 8) as int;
    assert(t1 == 8 * base + (8 - s) || t1 == 8 * (base - q) + (8 - s) || t1 == 8 * (base + q) + (8 - s));
    if t1 == 8 * base + (8 - s) {
        vstd::arithmetic::div_mod::lemma_mod_multiples_vanish(base, 8 - s, 8);
    } else if t1 == 8 * (base - q) + (8 - s) {
        vstd::arithmetic::div_mod::lemma_mod_multiples_vanish(base - q, 8 - s, 8);
    } else {
        vstd::arithmetic::div_mod::lemma_mod_multiples_vanish(base + q, 8 - s, 8);
    }
    vstd::arithmetic::div_mod::lemma_small_mod((8 - s) as nat, 8);
}

/// Turning the runner around twice gives back the same runner: the tile it
/// was heading for becomes its own and back again, and the steps it had
/// gone are counted back.
pub proof fn lemma_reverse_twice(p: Pukman)
    requires
        p.dir <= 4,
    ensures
        pukman_reversed(pukman_reversed(p)) == p,
{
    crate::moves::lemma_opposite_involution(p.dir);
    crate::moves::lemma_shift_back(p.locField, p.dir, 1);
    if 0 < p.tick % 8 {
        lemma_step_turned(p.tick);
    }
}

/// The world index of the tile at `loc`.
pub open spec fn tile_index(loc: Mvec) -> int {
    loc.col() + loc.row() * WORLD_WIDTH
}

/// The runner after turning or starting, before it counts on: standing, it
/// starts toward the wanted direction if it can (`next_dir`); moving, it
/// turns around when it wants the opposite direction.
pub open spec fn pukman_started(o: GraphicsView, p: Pukman) -> Pukman {
    if p.dir == 4 {
        Pukman { dir: next_dir(o, p.locField, p.dir, p.bias), ..p }
    } else if p.bias == opposite_dir(p.dir) {
        pukman_reversed(p)
    } else {
        p
    }
}

/// The runner and the graphics after one move of the runner: a standing
/// runner that cannot start stays; otherwise it counts on, and every 8
/// counts it steps onto the next tile, eats what lies there (a pill 1 point,
/// a power pill 1000 points and makes it hungry for chasers), and picks its
/// next direction (`next_dir`); then it is drawn.
pub open spec fn pukman_step(p: Pukman, o: GraphicsView) -> (Pukman, GraphicsView) {
    let p1 = pukman_started(o, p);
    if p.dir == 4 && p1.dir == 4 {
        (p1, o)
    } else {
        let p2 = Pukman { tick: usize_specs::wrapping_add(p1.tick, 1), ..p1 };
        if p2.tick % 8 == 0 {
            let loc = mvec_shifted(p2.locField, p2.dir, 1);
            let dot = o.world[tile_index(loc)];
            let o1 = GraphicsView { world: o.world.update(tile_index(loc), 0), ..o };
            let gain: usize = if dot == 1 { 1 } else if dot == 2 { 1000 } else { 0 };
            let p3 = Pukman {
                locField: loc,
                score: usize_specs::wrapping_add(p2.score, gain),
                hungry: p2.hungry || dot == 2,
                ..p2
            };
            let p4 = Pukman { dir: next_dir(o1, loc, p3.dir, p3.bias), ..p3 };
            (p4, pukman_drawn(o1, p4))
        } else {
            (p2, pukman_drawn(o, p2))
        }
    }
}

/// What a move of the runner needs: known directions, the maze readable
/// where it picks a direction, the tile it steps onto inside the world, and
/// a drawable sprite.
pub open spec fn pukman_tick_ready(p: Pukman, o: GraphicsView) -> bool {
    let p1 = pukman_started(o, p);
    let p2 = Pukman { tick: usize_specs::wrapping_add(p1.tick, 1), ..p1 };
    let loc = mvec_shifted(p2.locField, p2.dir, 1);
    let o1 = GraphicsView { world: o.world.update(tile_index(loc), 0), ..o };
    let (p4, o4) = pukman_step(p, o);
    &&& o.wf()
    &&& p.dir <= 4
    &&& p.bias <= 4
    &&& p.locField.w > 0
    &&& p.locField.h > 0
    &&& p.dir == 4 ==> readable_at(p.locField)
    &&& !(p.dir == 4 && p1.dir == 4) ==> {
        &&& p2.tick % 8 == 0 ==> {
            &&& readable_at(loc)
            &&& 0 <= tile_index(loc) < WORLD_VOLUME
            &&& pukman_drawable(o1, p4)
        }
        &&& p2.tick % 8 != 0 ==> pukman_drawable(o, p4)
    }
}

/// A runner on the sprite field of the game (30 by 35 tiles), with known
/// directions and its pictures in memory.
pub open spec fn pukman_in_game(p: Pukman) -> bool {
    &&& p.sprite < SPRITECOUNT
    &&& p.locField.w == 30
    &&& p.locField.h == 35
    &&& p.dir <= 4
    &&& p.bias <= 4
    &&& p.data + SPRITE_VOLUME * 11 <= MEMORYSIZE
}

/// The direction the runner picks is one of the four or standing.
proof fn lemma_next_dir_known(o: GraphicsView, loc: Mvec, dir: usize, bias: usize)
    requires
        dir <= 4,
        bias <= 4,
    ensures
        next_dir(o, loc, dir, bias) <= 4,
{
}

/// A runner in the game can always make its move.
pub proof fn lemma_pukman_ready(o: GraphicsView, p: Pukman)
    requires
        game_views(o),
        pukman_in_game(p),
    ensures
        pukman_tick_ready(p, o),
{
    lemma_coord_raw_below_zero(240, 4);
    lemma_coord_raw_below_zero(280, 4);
    lemma_next_dir_known(o, p.locField, p.dir, p.bias);
    let p1 = pukman_started(o, p);
    assert(p1.dir <= 4 && p1.locField.w == 30 && p1.locField.h == 35 && p1.data == p.data && p1.sprite == p.sprite);
    let p2 = Pukman { tick: usize_specs::wrapping_add(p1.tick, 1), ..p1 };
    let loc = mvec_shifted(p2.locField, p2.dir, 1);
    assert(loc.w == 30 && loc.h == 35);
    assert(0 <= loc.col() < 30 && 0 <= loc.row() < 35);
    let o1 = GraphicsView { world: o.world.update(tile_index(loc), 0), ..o };
    lemma_next_dir_known(o1, loc, p2.dir, p2.bias);
}

/// One move of a runner in the game keeps it in the game, and changes
/// nothing of the graphics but the tile it ate, which becomes empty, and its
/// own sprite, which keeps its window size and shows a picture inside memory.
pub proof fn lemma_pukman_step_keeps(o: GraphicsView, p: Pukman)
    requires
        game_views(o),
        pukman_in_game(p),
    ensures
        ({
            let (p4, o4) = pukman_step(p, o);
            &&& pukman_in_game(p4)
            &&& p4.sprite == p.sprite
            &&& p4.data == p.data
            &&& p4.bias == p.bias
            &&& o4 == (GraphicsView { sprites: o4.sprites, world: o4.world, ..o })
            &&& o4.world.len() == o.world.len()
            &&& forall|c: int| 0 <= c < o.world.len() ==> #[trigger] o4.world[c] == o.world[c] || o4.world[c] == 0
            &&& o4.sprites.len() == o.sprites.len()
            &&& forall|j: int| 0 <= j < o.sprites.len() && j != p.sprite ==> #[trigger] o4.sprites[j] == o.sprites[j]
            &&& o4.sprites[p.sprite as int].locWindow.w == o.sprites[p.sprite as int].locWindow.w
            &&& o4.sprites[p.sprite as int].locWindow.h == o.sprites[p.sprite as int].locWindow.h
            &&& o4.sprites[p.sprite as int].data + SPRITE_VOLUME <= MEMORYSIZE || o4.sprites == o.sprites
        }),
{
    lemma_pukman_ready(o, p);
    lemma_next_dir_known(o, p.locField, p.dir, p.bias);
    let p1 = pukman_started(o, p);
    let p2 = Pukman { tick: usize_specs::wrapping_add(p1.tick, 1), ..p1 };
    let loc = mvec_shifted(p2.locField, p2.dir, 1);
    let o1 = GraphicsView { world: o.world.update(tile_index(loc), 0), ..o };
    lemma_next_dir_known(o1, loc, p2.dir, p2.bias);
    let (p4, o4) = pukman_step(p, o);
    lemma_pukman_picture_fits(p4);
}

impl Pukman {
    /// A runner in sprite `sprite` at tile (`x`, `y`), moving in `dir`;
    /// a moving runner starts one tile back with its counter just before a
    /// step, a standing one is drawn at once.  Its sprite is sized to the
    /// sprite view.
    pub fn new(vid: &mut Graphics, sprite: usize, data: usize, x: usize, y: usize, dir: usize) -> (p: Pukman)
        requires
            old(vid)@.wf(),
            sprite < SPRITECOUNT,
            dir == 4 ==> pukman_drawable(
                sized(old(vid)@, sprite as int),
                Pukman {
                    tick: 0,
                    sprite,
                    data,
                    locField: Mvec { w: old(vid)@.sprite_field.w, h: old(vid)@.sprite_field.h, x: coord_raw(old(vid)@.sprite_field.w, x), y: coord_raw(old(vid)@.sprite_field.h, y) },
                    dir,
                    bias: 4,
                    hungry: false,
                    score: 0,
                },
            ),
        ensures
            ({
                let start = Mvec { w: old(vid)@.sprite_field.w, h: old(vid)@.sprite_field.h, x: coord_raw(old(vid)@.sprite_field.w, x), y: coord_raw(old(vid)@.sprite_field.h, y) };
                &&& p == (Pukman {
                    tick: if dir == 4 { 0 } else { usize::MAX },
                    sprite,
                    data,
                    locField: if dir == 4 { start } else { mvec_shifted(start, opposite_dir(dir), 1) },
                    dir,
                    bias: 4,
                    hungry: false,
                    score: 0,
                })
                &&& final(vid)@ == if dir == 4 { pukman_drawn(sized(old(vid)@, sprite as int), p) } else { sized(old(vid)@, sprite as int) }
            }),
    {
        let mut loc = Mvec::new(vid.spriteField.w, vid.spriteField.h, x, y);
        if 4 != dir {
            loc.shift(opposite(dir), 1);
        }
        size_sprite(vid, sprite);
        let p = Pukman {
            tick: if dir == 4 { 0 } else { usize::MAX },
            sprite,
            data,
            dir,
            locField: loc,
            bias: 4,
            hungry: false,
            score: 0,
        };
        if 4 == dir {
            p.render(vid)
        }
        p
    }

    /// Turns the runner around (see `pukman_reversed`).
    pub fn reverse(&mut self)
        ensures
            *final(self) == pukman_reversed(*old(self)),
    {
        let step = self.tick % 8;
        if 0 < step {
            self.locField.shift(self.dir, 1);
            self.tick = self.tick.wrapping_add(8).wrapping_sub(2 * step);
        }
        self.dir = opposite(self.dir);
    }

    /// Sets the direction the runner wants.
    pub fn go(&mut self, go: usize)
        ensures
            *final(self) == (Pukman { bias: go, ..*old(self) }),
    {
        self.bias = go
    }

    /// Draws the runner: its sprite at its tile, gone its counter (modulo 8)
    /// pixels toward the next tile, showing `pukman_picture`.
    pub fn render(&self, vid: &mut Graphics)
        requires
            pukman_drawable(old(vid)@, *self),
        ensures
            final(vid)@ == pukman_drawn(old(vid)@, *self),
    {
        let frame = if self.dir == 4 {
            0
        } else {
            let m = self.tick % 4;
            if m == 1 || m == 3 {
                self.dir.wrapping_mul(2).wrapping_add(1)
            } else if m == 2 {
                self.dir.wrapping_mul(2).wrapping_add(2)
            } else {
                0
            }
        };
        place_sprite(vid, self.sprite, &self.locField, self.dir, self.tick % 8, self.data.wrapping_add(SPRITE_VOLUME.wrapping_mul(frame)));
    }

    /// One move of the runner (see `pukman_step`).
    pub fn tick(&mut self, vid: &mut Graphics)
        requires
            pukman_tick_ready(*old(self), old(vid)@),
        ensures
            (*final(self), final(vid)@) == pukman_step(*old(self), old(vid)@),
    {
        if 4 == self.dir {
            self.dir = nextdir(vid, &self.locField, self.dir, self.bias);
            if 4 == self.dir {
                return
            }
        } else if self.bias == opposite(self.dir) {
            self.reverse()
        }
        self.tick = self.tick.wrapping_add(1);
        if 0 == self.tick % 8 {
            // Update field loc
            self.locField.shift(self.dir, 1);
            // Maybe eat pill and become chaser-hungry if power pill
            let dot = vid.setFieldTile(self.locField.x(), self.locField.y(), 0);
            let gain: usize = if dot == 1 {
                1
            } else if dot == 2 {
                self.hungry = true;
                1000
            } else {
                0
            };
            self.score = self.score.wrapping_add(gain);
            self.dir = nextdir(vid, &self.locField, self.dir, self.bias);
        }
        self.render(vid);
    }
}


// ---------------------------------------------------------------------------
// The game
// ---------------------------------------------------------------------------

/// The game: the graphics, the runner, the four chasers, where the digit,
/// tile and mascot pictures start, and how many escape keys came in a row.
pub struct ArcadeGame {
    pub vid: Graphics,
    pub pukman: Pukman,
    pub ghosts: [Chaser; 4],
    pub digitsMem: usize,
    pub dataTiles: usize,
    pub drinkyBirdData: usize,
    pub esc: usize,
}

/// A sprite has a window and a picture inside memory.
pub open spec fn sprite_ok(sp: Sprite) -> bool {
    &&& 0 < sp.locWindow.w <= 512
    &&& 0 < sp.locWindow.h <= 512
    &&& sp.data + SPRITE_VOLUME <= MEMORYSIZE
}

/// The runner keeps its sprite, picture (loaded from `base` on) and field,
/// and knows its directions.
pub open spec fn pukman_ok(p: Pukman, base: int) -> bool {
    &&& p.sprite == 0
    &&& p.data == base + 9728
    &&& p.locField.w == 30
    &&& p.locField.h == 35
    &&& p.dir <= 4
    &&& p.bias <= 4
}

/// Chaser `i` keeps its sprite, pictures (loaded from `base` on) and field,
/// and moves in one of the four directions.
pub open spec fn chaser_ok(g: Chaser, i: int, base: int) -> bool {
    &&& g.sprite == i + 1
    &&& g.data == base + 2048 * i
    &&& g.dataScared == base + 8192
    &&& g.dataEyes == base + 8704
    &&& g.locField.w == 30
    &&& g.locField.h == 35
    &&& g.goalSpritefieldMvec.w == 30
    &&& g.goalSpritefieldMvec.h == 35
    &&& g.dir < 4
}

/// Where loading put the game's pictures: the digits start 12544 bytes on.
pub open spec fn game_base(g: ArcadeGame) -> int {
    g.digitsMem - 12544
}

/// What every frame of the game keeps: the field of 28 by 33 tiles and the
/// views made for it, the pictures where loading put them, tiles that have
/// pictures, sprites with windows and pictures inside memory, and the
/// figures in their sprites on the sprite field.
pub open spec fn game_inv(g: ArcadeGame) -> bool {
    let o = g.vid@;
    let base = game_base(g);
    &&& o.wf()
    &&& o.field == mvec_at(28, 33, 0, 0)
    &&& o.view == mvec_at(224, 264, 0, 0)
    &&& o.sprite_field == mvec_at(30, 35, 0, 0)
    &&& o.sprite_view == mvec_at(240, 280, 0, 0)
    &&& o.center_adj == mvec_at(240, 280, (usize::MAX - 3) as usize, (usize::MAX - 3) as usize)
    &&& 0 <= base
    &&& base + PUKMAN_DATA_SIZE <= MEMORYSIZE
    &&& g.dataTiles == base + 17664
    &&& g.drinkyBirdData == base + 12032
    &&& forall|c: int| 0 <= c < WORLD_VOLUME ==> #[trigger] o.world[c] <= 35
    &&& forall|s: int| 0 <= s < SPRITECOUNT ==> sprite_ok(#[trigger] o.sprites[s])
    &&& pukman_ok(g.pukman, base)
    &&& forall|i: int| 0 <= i < 4 ==> chaser_ok(#[trigger] g.ghosts[i], i, base)
}

/// The direction a key asks for: `l`, `d` or `C` right; `j`, `s` or `B`
/// down; `h`, `a` or `D` left; `k`, `w` or `A` up; none for other keys.
pub open spec fn key_dir(k: u8) -> Option<usize> {
    if k == 0x6c || k == 0x64 || k == 0x43 {
        Some(0)
    } else if k == 0x6a || k == 0x73 || k == 0x42 {
        Some(1)
    } else if k == 0x68 || k == 0x61 || k == 0x44 {
        Some(2)
    } else if k == 0x6b || k == 0x77 || k == 0x41 {
        Some(3)
    } else {
        None
    }
}

/// 10 to the power `k`.
pub open spec fn pow10(k: nat) -> nat
    decreases k,
{
    if k == 0 {
        1
    } else {
        10 * pow10((k - 1) as nat)
    }
}

/// Sprite `sp` moved to (`x`, `y`) in the window, showing picture `data`.
pub open spec fn digit_sprite(sp: Sprite, x: usize, y: usize, data: usize) -> Sprite {
    Sprite {
        data,
        locWindow: Mvec { x: coord_raw(sp.locWindow.w, x), y: coord_raw(sp.locWindow.h, y), ..sp.locWindow },
        ..sp
    }
}

/// The picture of the digit of `v` worth `p` (its digit `v / p % 10`): the
/// digit pictures from `digitsMem` on, the small digits after the ten large
/// ones, wrapping.
pub open spec fn digit_picture(digitsMem: usize, v: usize, p: nat) -> usize {
    usize_specs::wrapping_add(digitsMem, (SPRITE_VOLUME * (10 + v as int / (p as int) % 10)) as usize)
}

/// `o` with the frame rate `val` in small digits in sprites 5 to 9 from 25
/// pixels right of the raster view's top left corner leftwards, and the
/// score in sprites 10 to 14 from 10 pixels left of its top right corner
/// leftwards, 5 pixels apart, lowest digit rightmost; window positions
/// wrap.
pub open spec fn fps_shown(o: GraphicsView, digitsMem: usize, val: usize, score: usize) -> GraphicsView {
    let left = o.raster_view.x;
    let top = o.raster_view.y;
    let width = o.raster_view.w;
    GraphicsView {
        sprites: Seq::new(
            o.sprites.len(),
            |i: int|
                if 5 <= i <= 9 {
                    digit_sprite(
                        o.sprites[i],
                        usize_specs::wrapping_sub(usize_specs::wrapping_add(left, 25), ((i - 5) * 5) as usize),
                        top,
                        digit_picture(digitsMem, val, pow10((i - 5) as nat)),
                    )
                } else if 10 <= i <= 14 {
                    digit_sprite(
                        o.sprites[i],
                        usize_specs::wrapping_sub(usize_specs::wrapping_add(left, width), ((i - 8) * 5) as usize),
                        top,
                        digit_picture(digitsMem, score, pow10((i - 10) as nat)),
                    )
                } else {
                    o.sprites[i]
                },
        ),
        ..o
    }
}


/// The score of the game: the runner's points and the points the chasers
/// gave away, wrapping.
pub open spec fn game_score(p: Pukman, gs: Seq<Chaser>) -> usize {
    usize_specs::wrapping_add(
        p.score,
        usize_specs::wrapping_add(usize_specs::wrapping_add(usize_specs::wrapping_add(gs[0].score, gs[1].score), gs[2].score), gs[3].score),
    )
}

/// `o` with the mascot (sprite 15) showing picture `data`.
pub open spec fn mascot_shown(o: GraphicsView, data: usize) -> GraphicsView {
    GraphicsView { sprites: o.sprites.update(15, Sprite { data, ..o.sprites[15] }), ..o }
}

/// Whether game `g2` follows game `g` by one step: the runner moves
/// (`pukman_step`); each chaser in turn is frightened if the runner just
/// became hungry, aimed at the runner's tile and moves (`chaser_ticked`),
/// passing the graphics on through `vs`; the runner's hunger is spent; the
/// mascot nods every 8 counts of the runner.
pub open spec fn game_advanced(g: ArcadeGame, g2: ArcadeGame) -> bool {
    let (p4, o1) = pukman_step(g.pukman, g.vid@);
    &&& g2.pukman == (Pukman { hungry: false, ..p4 })
    &&& g2.digitsMem == g.digitsMem
    &&& g2.dataTiles == g.dataTiles
    &&& g2.drinkyBirdData == g.drinkyBirdData
    &&& g2.esc == g.esc
    &&& exists|vs: Seq<GraphicsView>|
        #![trigger vs.len()]
        {
            &&& vs.len() == 5
            &&& vs[0] == o1
            &&& forall|j: int|
                0 <= j < 4 ==> chaser_ticked(ArcadeGame::aimed(g.ghosts[j], p4), vs[j], #[trigger] g2.ghosts[j], vs[j + 1])
            &&& g2.vid@ == mascot_shown(vs[4], (g.drinkyBirdData + p4.tick / 8 % 2 * SPRITE_VOLUME) as usize)
        }
}

/// A power pill frightens the chasers: in a step of a running game in which the
/// runner's move makes it hungry, every chaser that was not eyes ends the
/// step frightened, unless it was caught and became eyes, or it stands in
/// its home (where chasers hunt again to get out).
#[verifier::spinoff_prover]
pub proof fn lemma_power_pill_frightens(g: ArcadeGame, g2: ArcadeGame, k: int)
    requires
        game_inv(g),
        game_advanced(g, g2),
        0 <= k < 4,
        pukman_step(g.pukman, g.vid@).0.hungry,
        g.ghosts[k].state != usize::MAX,
    ensures
        scared_state(g2.ghosts[k].state) || g2.ghosts[k].state == usize::MAX || in_home(g2.ghosts[k].locField),
{
    let (p4, o1) = pukman_step(g.pukman, g.vid@);
    let vs = choose|vs: Seq<GraphicsView>|
        #![trigger vs.len()]
        {
            &&& vs.len() == 5
            &&& vs[0] == o1
            &&& forall|j: int|
                0 <= j < 4 ==> chaser_ticked(ArcadeGame::aimed(g.ghosts[j], p4), vs[j], #[trigger] g2.ghosts[j], vs[j + 1])
            &&& g2.vid@ == mascot_shown(vs[4], (g.drinkyBirdData + p4.tick / 8 % 2 * SPRITE_VOLUME) as usize)
        };
    let a = ArcadeGame::aimed(g.ghosts[k], p4);
    assert(chaser_ok(g.ghosts[k], k, game_base(g)));
    assert(chaser_ticked(a, vs[k], g2.ghosts[k], vs[k + 1]));
    lemma_frightened_move(a, vs[k], g2.ghosts[k], vs[k + 1]);
}

/// A frightened chaser stays frightened through its move, unless it is
/// caught and becomes eyes, or it ends the move in its home.
proof fn lemma_frightened_move(a: Chaser, o: GraphicsView, g2: Chaser, o2: GraphicsView)
    requires
        chaser_ticked(a, o, g2, o2),
        scared_state(a.state),
        a.goalSpritefieldMvec.w > 15,
        a.goalSpritefieldMvec.h > 15,
    ensures
        scared_state(g2.state) || g2.state == usize::MAX || in_home(g2.locField),
{
    vstd::arithmetic::div_mod::lemma_small_mod(14, a.goalSpritefieldMvec.w as nat);
    vstd::arithmetic::div_mod::lemma_small_mod(15, a.goalSpritefieldMvec.h as nat);
    let (g5, wall, go) = chaser_advance(a);
    assert(g2.state == g5.state);
    assert(g2.locField == g5.locField);
}

/// The keys that steer the runner, and only they: the cursor keys' last
/// bytes `A`, `B`, `C`, `D` mean up, down, right, left; `k`, `j`, `l`, `h`
/// and `w`, `s`, `d`, `a` likewise; each key one direction.
pub proof fn lemma_direction_keys(k: u8)
    ensures
        key_dir(k) == Some(3usize) <==> (k == 0x41 || k == 0x6b || k == 0x77),
        key_dir(k) == Some(1usize) <==> (k == 0x42 || k == 0x6a || k == 0x73),
        key_dir(k) == Some(0usize) <==> (k == 0x43 || k == 0x6c || k == 0x64),
        key_dir(k) == Some(2usize) <==> (k == 0x44 || k == 0x68 || k == 0x61),
        key_dir(k) is None <==> !(0x41 <= k <= 0x44 || k == 0x6b || k == 0x77 || k == 0x6a || k == 0x73 || k == 0x6c || k == 0x64
            || k == 0x68 || k == 0x61),
{
}

/// The graphics of game `g` just before a frame of it goes to the terminal
/// with frame rate `fps` and score `score`: the raster view centred on the
/// runner, the frame rate and score shown, and the frame drawn.
pub open spec fn frame_view(g: ArcadeGame, fps: usize, score: usize) -> GraphicsView {
    let o1 = centered(g.vid@, g.pukman.sprite as int);
    let o2 = fps_shown(o1, g.digitsMem, fps, score);
    GraphicsView { framebuff: rasterized_frame(o2, g.dataTiles as int), dirty: rasterized_dirty(o2), ..o2 }
}

/// Chaser `k` at the start of the game with the pictures loaded from `base`
/// on: sprite `k + 1`, its own body pictures, the shared frightened and eyes
/// pictures, standing on its start tile and heading for it, hunting.
pub open spec fn start_chaser(base: int, k: int) -> Chaser {
    let x: usize = if k == 0 || k == 2 { 9 } else { 18 };
    let y: usize = if k <= 1 { 12 } else { 18 };
    let dir: usize = if k == 0 { 0 } else if k == 1 { 1 } else if k == 2 { 3 } else { 2 };
    Chaser {
        tick: 0,
        sprite: (k + 1) as usize,
        data: (base + 2048 * k) as usize,
        dataScared: (base + 8192) as usize,
        dataEyes: (base + 8704) as usize,
        dir,
        locField: mvec_at(30, 35, x, y),
        goalSpritefieldMvec: mvec_at(30, 35, x, y),
        state: 0,
        score: 0,
    }
}

/// The runner at the start of the game with the pictures loaded from `base`
/// on: sprite 0, moving left from tile (15, 18), so one tile to the right of
/// it with its counter just before a step.
pub open spec fn start_pukman(base: int) -> Pukman {
    Pukman {
        tick: usize::MAX,
        sprite: 0,
        data: (base + 9728) as usize,
        locField: mvec_shifted(mvec_at(30, 35, 15, 18), 0, 1),
        dir: 2,
        bias: 4,
        hungry: false,
        score: 0,
    }
}

/// `o` with every sprite shown.
pub open spec fn sprites_shown(o: GraphicsView) -> GraphicsView {
    GraphicsView { sprites: Seq::new(o.sprites.len(), |i: int| Sprite { en: true, ..o.sprites[i] }), ..o }
}

/// `o` with the mascot (sprite 15) showing the picture 12032 bytes after
/// `base`, at (104, 116) in the window.
pub open spec fn mascot_placed(o: GraphicsView, base: int) -> GraphicsView {
    let bird = o.sprites[15];
    GraphicsView {
        sprites: o.sprites.update(
            15,
            Sprite {
                data: (base + 12032) as usize,
                locWindow: Mvec { x: coord_raw(bird.locWindow.w, 104), y: coord_raw(bird.locWindow.h, 116), ..bird.locWindow },
                ..bird
            },
        ),
        ..o
    }
}

/// `o` with the four chasers' sprites sized and drawn at their start.
pub open spec fn chasers_placed(o: GraphicsView, base: int) -> GraphicsView {
    let o1 = chaser_drawn(sized(o, 1), start_chaser(base, 0));
    let o2 = chaser_drawn(sized(o1, 2), start_chaser(base, 1));
    let o3 = chaser_drawn(sized(o2, 3), start_chaser(base, 2));
    chaser_drawn(sized(o3, 4), start_chaser(base, 3))
}

/// The graphics `o` made ready for the game: a field of 28 by 33 tiles, the
/// pictures loaded at the memory cursor and the maze painted
/// (`pukman_video`), every sprite shown, the mascot placed, the chasers
/// sized and drawn, and the runner's sprite sized.
pub open spec fn start_view(o: GraphicsView) -> GraphicsView {
    let base = o.mem_ptr as int;
    sized(chasers_placed(mascot_placed(sprites_shown(pukman_video(field_sized(o, 28, 33))), base), base), 0)
}

/// Graphics that the game can be started on and then kept running: tiles
/// that have pictures (at most 35) and sprites with windows and pictures
/// inside memory.
pub open spec fn start_ready(o: GraphicsView) -> bool {
    &&& tiles_at_most(o.world, 35)
    &&& forall|s: int| 0 <= s < o.sprites.len() ==> sprite_ok(#[trigger] o.sprites[s])
}

/// Fresh graphics are ready for the game, with all of memory free.
pub proof fn lemma_fresh_graphics_ready(h: usize, w: usize)
    ensures
        initial_graphics(h, w).wf(),
        initial_graphics(h, w).mem_ptr == 0,
        start_ready(initial_graphics(h, w)),
{
    let o = initial_graphics(h, w);
    lemma_new_reads_back(WINDOW_WIDTH, WINDOW_HEIGHT, 0, 0);
    assert forall|s: int| 0 <= s < o.sprites.len() implies sprite_ok(#[trigger] o.sprites[s]) by {}
}

/// A chaser can be drawn in a sized sprite, and that keeps every sprite
/// whole, where the chaser's picture lies inside memory.
proof fn lemma_start_sprites(o: GraphicsView, g: Chaser)
    requires
        game_views(o),
        g.sprite < SPRITECOUNT,
        g.locField.w == 30,
        g.locField.h == 35,
        chaser_pictures_fit(g),
        g.dir < 4,
    ensures
        chaser_drawable(sized(o, g.sprite as int), g),
        ({
            let o2 = chaser_drawn(sized(o, g.sprite as int), g);
            &&& game_views(o2)
            &&& o2 == (GraphicsView { sprites: o2.sprites, ..o })
            &&& (forall|s: int| 0 <= s < SPRITECOUNT ==> sprite_ok(#[trigger] o.sprites[s])) ==> (forall|s: int|
                0 <= s < SPRITECOUNT ==> sprite_ok(#[trigger] o2.sprites[s]))
        }),
{
    lemma_coord_raw_below_zero(240, 4);
    lemma_coord_raw_below_zero(280, 4);
    lemma_ghost_picture_fits(g);
    let o1 = sized(o, g.sprite as int);
    let o2 = chaser_drawn(o1, g);
    if forall|s: int| 0 <= s < SPRITECOUNT ==> sprite_ok(#[trigger] o.sprites[s]) {
        assert forall|s: int| 0 <= s < SPRITECOUNT implies sprite_ok(#[trigger] o2.sprites[s]) by {
            assert(sprite_ok(o.sprites[s]));
        }
    }
}

impl ArcadeGame {
    /// The game on graphics `vid` with room for the game's pictures after
    /// the memory cursor (see `start_view`, `start_chaser`, `start_pukman`):
    /// the pictures loaded from the cursor on, so the digits start 12544
    /// bytes after it, the tiles 17664 and the mascot 12032.  On graphics
    /// ready for the game (`start_ready`, which fresh graphics are) every
    /// frame keeps `game_inv` from here on.
    #[verifier::spinoff_prover]
    #[verifier::rlimit(30)]
    pub fn new(vid: Graphics) -> (g: ArcadeGame)
        requires
            vid@.wf(),
            vid@.mem_ptr + PUKMAN_DATA_SIZE <= MEMORYSIZE,
        ensures
            g.vid@ == start_view(vid@),
            g.pukman == start_pukman(vid@.mem_ptr as int),
            forall|k: int| 0 <= k < 4 ==> #[trigger] g.ghosts[k] == start_chaser(vid@.mem_ptr as int, k),
            g.digitsMem == vid@.mem_ptr + 12544,
            g.dataTiles == vid@.mem_ptr + 17664,
            g.drinkyBirdData == vid@.mem_ptr + 12032,
            g.esc == 0,
            start_ready(vid@) ==> game_inv(g),
    {
        let ghost o0 = vid@;
        let ghost base = o0.mem_ptr as int;
        let mut vid = vid;
        vid.setFieldSize(28, 33);
        let ghost world0 = vid@.world;
        // Load sprite and tile data
        let offsets = initializeVideoDataPukman(&mut vid);
        proof {
            assert(offsets@[0] == pukman_offsets(base)[0]);
            assert(offsets@[1] == pukman_offsets(base)[1]);
            assert(offsets@[2] == pukman_offsets(base)[2]);
            assert(offsets@[3] == pukman_offsets(base)[3]);
            assert(offsets@[4] == pukman_offsets(base)[4]);
            assert(offsets@[5] == pukman_offsets(base)[5]);
            assert(offsets@[6] == pukman_offsets(base)[6]);
            assert(offsets@[7] == pukman_offsets(base)[7]);
            assert(offsets@[8] == pukman_offsets(base)[8]);
            assert(offsets@[9] == pukman_offsets(base)[9]);
        }
        // Digits
        let digitsMem = offsets[8];
        // Tiles
        let dataTiles = offsets[9];
        // Enable all sprites
        let ghost o1 = vid@;
        let mut i: usize = 0;
        while i < SPRITECOUNT
            invariant
                i <= SPRITECOUNT,
                o1 == pukman_video(field_sized(o0, 28, 33)),
                o1.wf(),
                vid@ == (GraphicsView { sprites: vid@.sprites, ..o1 }),
                vid@.sprites.len() == SPRITECOUNT,
                forall|j: int| 0 <= j < SPRITECOUNT ==> #[trigger] vid@.sprites[j] == if j < i {
                    Sprite { en: true, ..o1.sprites[j] }
                } else {
                    o1.sprites[j]
                },
            decreases SPRITECOUNT - i,
        {
            let mut sp = vid.sprites[i];
            sp.en = true;
            vid.sprites.set(i, sp);
            i += 1;
        }
        proof {
            assert(vid@.sprites =~= sprites_shown(o1).sprites);
            assert(vid@ == sprites_shown(o1));
        }
        // Drinkybird
        let drinkyBirdData = offsets[7];
        vid.setSpriteIdx(15, drinkyBirdData);
        vid.setSpriteLocWindow(15, 13 * TILE_WIDTH, 15 * TILE_WIDTH - TILE_WIDTH / 2);
        let ghost o2 = vid@;
        proof {
            lemma_coord_raw_below_zero(240, 4);
            lemma_coord_raw_below_zero(280, 4);
            assert(o2.sprites =~= mascot_placed(sprites_shown(o1), base).sprites);
            assert(o2 == mascot_placed(sprites_shown(o1), base));
            if start_ready(o0) {
                assert forall|s: int| 0 <= s < SPRITECOUNT implies sprite_ok(#[trigger] o2.sprites[s]) by {
                    assert(sprite_ok(o0.sprites[s]));
                }
            }
            lemma_start_sprites(o2, start_chaser(base, 0));
        }
        // Chasers
        let blinky = Chaser::new(&mut vid, 1, offsets[0], offsets[4], offsets[5], 9, 12, 0);
        proof {
            assert(blinky == start_chaser(base, 0));
            lemma_start_sprites(vid@, start_chaser(base, 1));
        }
        let pinky = Chaser::new(&mut vid, 2, offsets[1], offsets[4], offsets[5], 18, 12, 1);
        proof {
            assert(pinky == start_chaser(base, 1));
            lemma_start_sprites(vid@, start_chaser(base, 2));
        }
        let inky = Chaser::new(&mut vid, 3, offsets[2], offsets[4], offsets[5], 9, 18, 3);
        proof {
            assert(inky == start_chaser(base, 2));
            lemma_start_sprites(vid@, start_chaser(base, 3));
        }
        let clyde = Chaser::new(&mut vid, 4, offsets[3], offsets[4], offsets[5], 18, 18, 2);
        proof {
            assert(clyde == start_chaser(base, 3));
            assert(vid@ == chasers_placed(o2, base));
        }
        // Runner
        let pukman = Pukman::new(&mut vid, 0, offsets[6], 15, 18, 2);
        let g = ArcadeGame { vid, pukman, ghosts: [blinky, pinky, inky, clyde], digitsMem, dataTiles, drinkyBirdData, esc: 0 };
        proof {
            if start_ready(o0) {
                assert(tiles_at_most(world0, 35));
                assert forall|c: int| 0 <= c < WORLD_VOLUME implies #[trigger] g.vid@.world[c] <= 35 by {
                    assert(tiles_at_most(o1.world, 35));
                }
                assert forall|s: int| 0 <= s < SPRITECOUNT implies sprite_ok(#[trigger] g.vid@.sprites[s]) by {}
            }
        }
        g
    }

    /// Handles one key, if one came: quit on Ctrl-C, `q` or `Q` (returns
    /// false); count an escape and quit on the second in a row; otherwise
    /// set the runner's wanted direction for a direction key, forget
    /// escapes, and go on (returns true).
    pub fn checkKeyboard(&mut self, key: Option<u8>) -> (go_on: bool)
        ensures
            game_inv(*old(self)) ==> game_inv(*final(self)),
            match key {
                None => go_on && *final(self) == *old(self),
                Some(k) => if k == 0x03 || k == 0x71 || k == 0x51 {
                    !go_on && *final(self) == *old(self)
                } else if k == 0x1b {
                    final(self).esc == usize_specs::wrapping_add(old(self).esc, 1)
                        && go_on == (final(self).esc != 2)
                        && *final(self) == (ArcadeGame { esc: final(self).esc, ..*old(self) })
                } else {
                    go_on && *final(self) == (ArcadeGame {
                        esc: 0,
                        pukman: match key_dir(k) {
                            Some(d) => Pukman { bias: d, ..old(self).pukman },
                            None => old(self).pukman,
                        },
                        ..*old(self)
                    })
                },
            },
    {
        match key {
            None => true,
            Some(k) => {
                if k == 0x03 || k == 0x71 || k == 0x51 {
                    return false;  // Quit: ^C q Q
                }
                if k == 0x1b {
                    self.esc = self.esc.wrapping_add(1);
                    return self.esc != 2;
                }
                if k == 0x6c || k == 0x64 || k == 0x43 {
                    self.pukman.go(0)  // Right: l d
                } else if k == 0x6a || k == 0x73 || k == 0x42 {
                    self.pukman.go(1)  // Down: j s
                } else if k == 0x68 || k == 0x61 || k == 0x44 {
                    self.pukman.go(2)  // Left: h a
                } else if k == 0x6b || k == 0x77 || k == 0x41 {
                    self.pukman.go(3)  // Up: k w
                }
                self.esc = 0;
                true
            },
        }
    }

    /// Chaser `g` made ready to move: frightened when the runner `p` is
    /// hungry, and aimed at the runner's tile.
    pub open spec fn aimed(g: Chaser, p: Pukman) -> Chaser {
        let g1 = if p.hungry && g.state != usize::MAX { Chaser { state: 256, ..g } } else { g };
        Chaser {
            goalSpritefieldMvec: Mvec { x: p.locField.col() as usize, y: p.locField.row() as usize, ..g1.goalSpritefieldMvec },
            ..g1
        }
    }

    /// Frightens chaser `i` when the runner is hungry, aims it at the
    /// runner's tile, and moves it.
    fn move_chaser(&mut self, i: usize)
        requires
            game_inv(*old(self)),
            i < 4,
        ensures
            game_inv(*final(self)),
            chaser_ticked(Self::aimed(old(self).ghosts[i as int], old(self).pukman), old(self).vid@, final(self).ghosts[i as int], final(self).vid@),
            final(self).ghosts@ == old(self).ghosts@.update(i as int, final(self).ghosts[i as int]),
            final(self).pukman == old(self).pukman,
            final(self).digitsMem == old(self).digitsMem,
            final(self).dataTiles == old(self).dataTiles,
            final(self).drinkyBirdData == old(self).drinkyBirdData,
            final(self).esc == old(self).esc,
    {
        let ghost o = self.vid@;
        let mut g = self.ghosts[i];
        if self.pukman.hungry {
            g.scared()
        }
        g.setLocFgoal(&self.pukman.locField);
        assert(g == Self::aimed(old(self).ghosts[i as int], old(self).pukman));
        proof {
            assert(chaser_ok(old(self).ghosts[i as int], i as int, game_base(*old(self))));
            assert(chaser_in_game(g));
            lemma_chaser_ready(o, g);
        }
        let ghost g0 = g;
        g.tick(&mut self.vid);
        proof {
            lemma_chaser_ticked_keeps(o, g0, g, self.vid@);
        }
        self.ghosts[i] = g;
        proof {
            assert(self.ghosts@ =~= old(self).ghosts@.update(i as int, g));
            assert forall|j: int| 0 <= j < 4 implies chaser_ok(#[trigger] self.ghosts[j], j, game_base(*self)) by {
                if j != i {
                    assert(self.ghosts[j] == old(self).ghosts[j]);
                }
            }
            assert forall|s: int| 0 <= s < SPRITECOUNT implies sprite_ok(#[trigger] self.vid@.sprites[s]) by {
                assert(sprite_ok(o.sprites[s]));
            }
        }
    }

    /// One step of the game (see `game_advanced`); returns the score
    /// (`game_score`).
    #[verifier::spinoff_prover]
    #[verifier::rlimit(30)]
    pub fn advance(&mut self) -> (score: usize)
        requires
            game_inv(*old(self)),
        ensures
            game_inv(*final(self)),
            game_advanced(*old(self), *final(self)),
            score == game_score(final(self).pukman, final(self).ghosts@),
    {
        let ghost o0 = self.vid@;
        proof {
            lemma_pukman_ready(o0, self.pukman);
            lemma_pukman_step_keeps(o0, self.pukman);
        }
        self.pukman.tick(&mut self.vid);
        let ghost o1 = self.vid@;
        let ghost p4 = self.pukman;
        proof {
            assert forall|c: int| 0 <= c < WORLD_VOLUME implies #[trigger] o1.world[c] <= 35 by {
                assert(o0.world[c] <= 35);
            }
            assert forall|s: int| 0 <= s < SPRITECOUNT implies sprite_ok(#[trigger] o1.sprites[s]) by {
                assert(sprite_ok(o0.sprites[s]));
            }
        }
        let ghost mut vs: Seq<GraphicsView> = seq![o1];
        let mut i: usize = 0;
        while i < 4
            invariant
                game_inv(*self),
                i <= 4,
                vs.len() == i + 1,
                vs[0] == o1,
                vs[i as int] == self.vid@,
                self.pukman == p4,
                self.digitsMem == old(self).digitsMem,
                self.dataTiles == old(self).dataTiles,
                self.drinkyBirdData == old(self).drinkyBirdData,
                self.esc == old(self).esc,
                forall|j: int|
                    0 <= j < i ==> chaser_ticked(Self::aimed(old(self).ghosts[j], p4), vs[j], #[trigger] self.ghosts[j], vs[j + 1]),
                forall|j: int| i <= j < 4 ==> #[trigger] self.ghosts[j] == old(self).ghosts[j],
            decreases 4 - i,
        {
            self.move_chaser(i);
            proof {
                vs = vs.push(self.vid@);
            }
            i += 1;
        }
        self.pukman.hungry = false;
        let bird = self.drinkyBirdData + self.pukman.tick / 8 % 2 * SPRITE_VOLUME;
        self.vid.setSpriteIdx(15, bird);
        proof {
            assert(vs.len() == 5);
            assert forall|s: int| 0 <= s < SPRITECOUNT implies sprite_ok(#[trigger] self.vid@.sprites[s]) by {
                assert(sprite_ok(vs[4].sprites[s]));
            }
        }
        let chasers = self.ghosts[0].score.wrapping_add(self.ghosts[1].score).wrapping_add(self.ghosts[2].score).wrapping_add(
            self.ghosts[3].score,
        );
        self.pukman.score.wrapping_add(chasers)
    }

    /// Draws a frame of the game, showing the frame rate `fps` and the
    /// score (see `frame_view`), and returns the bytes that bring the
    /// terminal up to date with it (see `rows_state`).
    pub fn renderFrame(&mut self, fps: usize, score: usize) -> (out: Vec<u8>)
        requires
            game_inv(*old(self)),
        ensures
            game_inv(*final(self)),
            *final(self) == (ArcadeGame { vid: final(self).vid, ..*old(self) }),
            ({
                let f = frame_view(*old(self), fps, score);
                &&& out@ == rows_state(f, f.raster_view.h as int).out
                &&& final(self).vid@ == (GraphicsView { last: rows_state(f, f.raster_view.h as int).last, ..f })
            }),
    {
        let ghost o0 = self.vid@;
        proof {
            assert(sprite_ok(o0.sprites[0]));
        }
        self.vid.centerRasterView(self.pukman.sprite);
        let ghost o1 = self.vid@;
        proof {
            assert(0 <= o1.raster_view.x && o1.raster_view.x + o1.raster_view.w <= 224);
            assert(0 <= o1.raster_view.y && o1.raster_view.y + o1.raster_view.h <= 264);
        }
        self.setFps(fps, score);
        let ghost o2 = self.vid@;
        proof {
            assert forall|s: int| 0 <= s < SPRITECOUNT implies sprite_ok(#[trigger] o2.sprites[s]) by {
                assert(sprite_ok(o0.sprites[s]));
                assert(o1.sprites[s] == o0.sprites[s]);
            }
            assert forall|c: int|
                0 <= c < WORLD_VOLUME && in_field(o2, c % (WORLD_WIDTH as int), c / (WORLD_WIDTH as int)) && o2.dirty[c] implies
                (#[trigger] o2.world[c]) * TILE_VOLUME + self.dataTiles + TILE_VOLUME <= MEMORYSIZE by {
                assert(o2.world[c] == o0.world[c]);
            }
            assert(raster_ready(o2, self.dataTiles as int));
        }
        self.vid.rasterizeTilesSprites(self.dataTiles);
        let out = self.vid.fieldBytes();
        proof {
            assert forall|s: int| 0 <= s < SPRITECOUNT implies sprite_ok(#[trigger] self.vid@.sprites[s]) by {
                assert(sprite_ok(o2.sprites[s]));
            }
            assert forall|c: int| 0 <= c < WORLD_VOLUME implies #[trigger] self.vid@.world[c] <= 35 by {
                assert(o0.world[c] <= 35);
            }
        }
        out
    }

    /// Shows the frame rate `val` and the score (see `fps_shown`).
    #[verifier::spinoff_prover]
    pub fn setFps(&mut self, val: usize, score: usize)
        requires
            old(self).vid@.wf(),
        ensures
            final(self).vid@ == fps_shown(old(self).vid@, old(self).digitsMem, val, score),
            *final(self) == (ArcadeGame { vid: final(self).vid, ..*old(self) }),
    {
        let ghost o = self.vid@;
        let left = self.vid.rasterView.x;
        let top = self.vid.rasterView.y;
        let width = self.vid.rasterView.w;
        let mut i: usize = 5;
        let mut p: usize = 1;
        while i <= 9
            invariant
                o.wf(),
                5 <= i <= 10,
                p == pow10((i - 5) as nat),
                1 <= p <= 100000,
                i <= 9 ==> p <= 10000,
                *self == (ArcadeGame { vid: self.vid, ..*old(self) }),
                left == o.raster_view.x,
                top == o.raster_view.y,
                width == o.raster_view.w,
                self.vid@ == (GraphicsView { sprites: self.vid@.sprites, ..o }),
                self.vid@.sprites.len() == SPRITECOUNT,
                forall|j: int| 0 <= j < SPRITECOUNT ==> #[trigger] self.vid@.sprites[j] == if 5 <= j < i { fps_shown(o, self.digitsMem, val, score).sprites[j] } else { o.sprites[j] },
            decreases 10 - i,
        {
            self.vid.setSpriteLocWindow(i, left.wrapping_add(25).wrapping_sub((i - 5) * 5), top);
            self.vid.setSpriteIdx(i, self.digitsMem.wrapping_add(SPRITE_VOLUME * (10 + val / p % 10)));
            proof {
                reveal_with_fuel(pow10, 6);
            }
            p = p * 10;
            i += 1;
        }
        let mut i: usize = 10;
        let mut p: usize = 1;
        while i <= 14
            invariant
                o.wf(),
                10 <= i <= 15,
                p == pow10((i - 10) as nat),
                1 <= p <= 100000,
                i <= 14 ==> p <= 10000,
                *self == (ArcadeGame { vid: self.vid, ..*old(self) }),
                left == o.raster_view.x,
                top == o.raster_view.y,
                width == o.raster_view.w,
                self.vid@ == (GraphicsView { sprites: self.vid@.sprites, ..o }),
                self.vid@.sprites.len() == SPRITECOUNT,
                forall|j: int| 0 <= j < SPRITECOUNT ==> #[trigger] self.vid@.sprites[j] == if 5 <= j < i { fps_shown(o, self.digitsMem, val, score).sprites[j] } else { o.sprites[j] },
            decreases 15 - i,
        {
            self.vid.setSpriteLocWindow(i, left.wrapping_add(width).wrapping_sub((i - 8) * 5), top);
            self.vid.setSpriteIdx(i, self.digitsMem.wrapping_add(SPRITE_VOLUME * (10 + score / p % 10)));
            proof {
                reveal_with_fuel(pow10, 6);
            }
            p = p * 10;
            i += 1;
        }
        assert(self.vid@.sprites =~= fps_shown(o, self.digitsMem, val, score).sprites);
    }
}

} // verus!
