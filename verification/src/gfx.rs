use vstd::prelude::*;
use vstd::wrapping::usize_specs;
use std::collections::HashMap;

use crate::util::{Rnd, Term};
use crate::term_out::{push_decimal, rows_state, row_state, cell_step, PrintState, header_bytes, cursor_to, set_color, blk_bytes, shown_pixel};
use crate::raster::{
    cell, dirty_upto, frame_upto, in_field, lemma_cell_compose, lemma_cell_decompose, lemma_pixel_compose,
    lemma_pixel_decompose, lemma_sprite_index, lemma_sprite_last_hidden, lemma_sprite_marks_enum, marked_before,
    pix_at, pix_before, raster_ready, rasterized_dirty, rasterized_frame, tile_layer_upto, tile_pix, sprite_marks, sprite_hit, sprite_target,
    sprite_color,
};

verus! {

/// The glyph that draws one pixel on the terminal.
pub const BLK: char = '▉';

/// A width, a height and their product.
#[derive(Clone, Copy)]
pub struct Dim {
    pub width: usize,
    pub height: usize,
    pub volume: usize,
}

/// The dimensions `width` by `height`.
pub fn Dim(width: usize, height: usize) -> (d: Dim)
    requires
        width * height <= usize::MAX,
    ensures
        d.width == width,
        d.height == height,
        d.volume == width * height,
{
    Dim { width, height, volume: width * height }
}

pub const MEMORYSIZE: usize = 65536;

pub const SPRITECOUNT: usize = 16;

/// A background tile, in pixels.
pub const TILE_WIDTH: usize = 8;
pub const TILE_HEIGHT: usize = 8;
pub const TILE_VOLUME: usize = 64;

/// A sprite, in pixels.
pub const SPRITE_WIDTH: usize = 16;
pub const SPRITE_HEIGHT: usize = 16;
pub const SPRITE_VOLUME: usize = 256;

/// The world, in tiles.
pub const WORLD_WIDTH: usize = 64;
pub const WORLD_HEIGHT: usize = 64;
pub const WORLD_VOLUME: usize = 4096;

/// The window onto the world, in pixels.
pub const WINDOW_WIDTH: usize = 512;
pub const WINDOW_HEIGHT: usize = 512;
pub const WINDOW_VOLUME: usize = 262144;

// ---------------------------------------------------------------------------
// Positions on a torus
// ---------------------------------------------------------------------------

/// The raw value that stands for coordinate `v` on an axis of length `size`:
/// `size << 32` plus `v`, wrapping, so that small steps below zero still read
/// back modulo `size`.
pub open spec fn coord_raw(size: usize, v: usize) -> usize {
    usize_specs::wrapping_add(usize_specs::wrapping_shl(size, 32), v)
}

/// Horizontal step of direction `dir` (right, down, left, up; anything else stays).
pub open spec fn dir_dx(dir: usize) -> int {
    if dir == 0 {
        1
    } else if dir == 2 {
        -1
    } else {
        0
    }
}

/// Vertical step of direction `dir` (right, down, left, up; anything else stays).
pub open spec fn dir_dy(dir: usize) -> int {
    if dir == 1 {
        1
    } else if dir == 3 {
        -1
    } else {
        0
    }
}

/// A position on a `w` by `h` torus.  The raw coordinates `x` and `y` are read
/// modulo the size.
#[derive(Clone, Copy, Debug)]
pub struct Mvec {
    pub w: usize,
    pub h: usize,
    pub x: usize,
    pub y: usize,
}

/// `m` moved `mag` steps in direction `dir`, its raw coordinates wrapping.
pub open spec fn mvec_shifted(m: Mvec, dir: usize, mag: usize) -> Mvec {
    if dir == 0 {
        Mvec { x: usize_specs::wrapping_add(m.x, mag), ..m }
    } else if dir == 1 {
        Mvec { y: usize_specs::wrapping_add(m.y, mag), ..m }
    } else if dir == 2 {
        Mvec { x: usize_specs::wrapping_sub(m.x, mag), ..m }
    } else if dir == 3 {
        Mvec { y: usize_specs::wrapping_sub(m.y, mag), ..m }
    } else {
        m
    }
}

impl Mvec {
    /// The column on the torus.
    pub open spec fn col(self) -> int {
        self.x as int % self.w as int
    }

    /// The row on the torus.
    pub open spec fn row(self) -> int {
        self.y as int % self.h as int
    }

    /// Whether two positions stand on the same column and row.
    pub fn equal(&self, o: &Mvec) -> (r: bool)
        requires
            self.w > 0,
            self.h > 0,
            o.w > 0,
            o.h > 0,
        ensures
            r == (self.col() == o.col() && self.row() == o.row()),
    {
        self.x() == o.x() && self.y() == o.y()
    }

    /// The position (`x`, `y`) on a `w` by `h` torus.
    pub fn new(w: usize, h: usize, x: usize, y: usize) -> (r: Mvec)
        ensures
            r == (Mvec { w, h, x: coord_raw(w, x), y: coord_raw(h, y) }),
    {
        Mvec { w, h, x: w.wrapping_shl(32).wrapping_add(x), y: h.wrapping_shl(32).wrapping_add(y) }
    }

    /// Moves to (`x`, `y`), keeping the size.
    pub fn set(&mut self, x: usize, y: usize)
        ensures
            *final(self) == (Mvec { x: coord_raw(old(self).w, x), y: coord_raw(old(self).h, y), ..*old(self) }),
    {
        self.x = self.w.wrapping_shl(32).wrapping_add(x);
        self.y = self.h.wrapping_shl(32).wrapping_add(y);
    }

    /// Moves to the signed offsets (`x`, `y`) from the size, keeping the size.
    pub fn _seti(&mut self, x: isize, y: isize)
        ensures
            *final(self) == (Mvec {
                x: coord_raw(old(self).w, vstd::wrapping::isize_specs::wrapping_add(old(self).w as isize, x) as usize),
                y: coord_raw(old(self).h, vstd::wrapping::isize_specs::wrapping_add(old(self).h as isize, y) as usize),
                ..*old(self)
            }),
    {
        self.x = self.w.wrapping_shl(32).wrapping_add((self.w as isize).wrapping_add(x) as usize);
        self.y = self.h.wrapping_shl(32).wrapping_add((self.h as isize).wrapping_add(y) as usize);
    }

    /// The number of cells of the torus.
    pub fn _area(&self) -> (r: usize)
        ensures
            r == usize_specs::wrapping_mul(self.w, self.h),
            self.w * self.h <= usize::MAX ==> r == self.w * self.h,
    {
        proof {
            if self.w * self.h <= usize::MAX {
                assert(0 <= self.w * self.h) by (nonlinear_arith);
                vstd::arithmetic::div_mod::lemma_small_mod((self.w * self.h) as nat, (usize::MAX + 1) as nat);
            }
        }
        self.w.wrapping_mul(self.h)
    }

    /// Moves `mag` steps in direction `dir` (0 right, 1 down, 2 left, 3 up,
    /// anything else stays) and hands back the moved position.
    pub fn shift(&mut self, dir: usize, mag: usize) -> (r: &mut Mvec)
        ensures
            *r == mvec_shifted(*old(self), dir, mag),
            *final(self) == *final(r),
    {
        if dir == 0 {
            self.x = self.x.wrapping_add(mag);
        } else if dir == 1 {
            self.y = self.y.wrapping_add(mag);
        } else if dir == 2 {
            self.x = self.x.wrapping_sub(mag);
        } else if dir == 3 {
            self.y = self.y.wrapping_sub(mag);
        }
        self
    }

    /// The neighbouring position in direction `dir`.
    pub fn _next(&self, dir: usize) -> (r: Mvec)
        ensures
            r == mvec_shifted(*self, dir, 1),
    {
        if dir == 0 {
            Mvec { w: self.w, h: self.h, x: self.x.wrapping_add(1), y: self.y }
        } else if dir == 1 {
            Mvec { w: self.w, h: self.h, x: self.x, y: self.y.wrapping_add(1) }
        } else if dir == 2 {
            Mvec { w: self.w, h: self.h, x: self.x.wrapping_sub(1), y: self.y }
        } else if dir == 3 {
            Mvec { w: self.w, h: self.h, x: self.x, y: self.y.wrapping_sub(1) }
        } else {
            *self
        }
    }

    /// The column.
    pub fn x(&self) -> (r: usize)
        requires
            self.w > 0,
        ensures
            r == self.col(),
    {
        self.x % self.w
    }

    /// The row.
    pub fn y(&self) -> (r: usize)
        requires
            self.h > 0,
        ensures
            r == self.row(),
    {
        self.y % self.h
    }
}


// ---------------------------------------------------------------------------
// Sprites
// ---------------------------------------------------------------------------

/// A sprite: where its picture starts in memory, where it stands in the
/// window, and whether it is drawn.
#[derive(Clone, Copy)]
pub struct Sprite {
    pub data: usize,
    pub locWindow: Mvec,
    pub en: bool,
}

/// The sprite that `Sprite::default` gives: picture at 0, at the window's
/// origin, not drawn.
pub open spec fn default_sprite() -> Sprite {
    Sprite {
        data: 0,
        locWindow: Mvec {
            w: WINDOW_WIDTH,
            h: WINDOW_HEIGHT,
            x: coord_raw(WINDOW_WIDTH, 0),
            y: coord_raw(WINDOW_HEIGHT, 0),
        },
        en: false,
    }
}

impl Default for Sprite {
    fn default() -> (s: Sprite)
        ensures
            s == default_sprite(),
    {
        Sprite { data: 0, locWindow: Mvec::new(WINDOW_WIDTH, WINDOW_HEIGHT, 0, 0), en: false }
    }
}

// ---------------------------------------------------------------------------
// The graphics state
// ---------------------------------------------------------------------------

/// The sequence of the characters of `s`, one string after the other.
pub open spec fn flat_strs(s: Seq<&str>) -> Seq<char>
    decreases s.len(),
{
    if s.len() == 0 {
        Seq::empty()
    } else {
        flat_strs(s.drop_last()) + s.last()@
    }
}

/// The map from character codes to colours that a list of pairs builds,
/// a later pair for the same character overriding an earlier one.
pub open spec fn code_map(pairs: Seq<(char, u8)>) -> Map<u32, u8>
    decreases pairs.len(),
{
    if pairs.len() == 0 {
        Map::empty()
    } else {
        code_map(pairs.drop_last()).insert(pairs.last().0 as u32, pairs.last().1)
    }
}

/// Every character of `cs` has a colour in `cm`.
pub open spec fn all_coded(cm: Map<u32, u8>, cs: Seq<char>) -> bool {
    forall|i: int| 0 <= i < cs.len() ==> #[trigger] cm.contains_key(cs[i] as u32)
}

/// The colours of the characters of `cs`.
pub open spec fn encode_chars(cm: Map<u32, u8>, cs: Seq<char>) -> Seq<u8> {
    Seq::new(cs.len(), |i: int| cm[cs[i] as u32])
}

/// `mem` with `data` written from `start` on.
pub open spec fn write_run<T>(mem: Seq<T>, start: int, data: Seq<T>) -> Seq<T> {
    Seq::new(mem.len(), |k: int| if start <= k < start + data.len() { data[k - start] } else { mem[k] })
}

/// The world after row `y` of `rows` is painted at offset `y * 64`, one row
/// after the other.
pub open spec fn paint_rows(world: Seq<u8>, cm: Map<u32, u8>, rows: Seq<Seq<char>>) -> Seq<u8>
    decreases rows.len(),
{
    if rows.len() == 0 {
        world
    } else {
        write_run(
            paint_rows(world, cm, rows.drop_last()),
            (rows.len() - 1) * WORLD_WIDTH,
            encode_chars(cm, rows.last()),
        )
    }
}

/// The abstract state of `Graphics`.
pub struct GraphicsView {
    pub term_h: usize,
    pub term_w: usize,
    pub rnd: u16,
    pub memory: Seq<u8>,
    pub mem_ptr: nat,
    pub colors: Map<u32, u8>,
    pub world: Seq<u8>,
    pub dirty: Seq<bool>,
    pub sprites: Seq<Sprite>,
    pub center_adj: Mvec,
    pub field: Mvec,
    pub sprite_field: Mvec,
    pub view: Mvec,
    pub sprite_view: Mvec,
    pub raster_view: Mvec,
    pub framebuff: Seq<u8>,
    pub last: Seq<u8>,
    pub msg: Seq<char>,
}

impl GraphicsView {
    /// The buffers have their sizes and the memory cursor stands inside memory.
    pub open spec fn wf(self) -> bool {
        &&& self.memory.len() == MEMORYSIZE
        &&& self.mem_ptr <= MEMORYSIZE
        &&& self.world.len() == WORLD_VOLUME
        &&& self.dirty.len() == WORLD_VOLUME
        &&& self.sprites.len() == SPRITECOUNT
        &&& self.framebuff.len() == WINDOW_VOLUME
        &&& self.last.len() == WINDOW_VOLUME
    }

    /// The tile at column `x` and row `y` of the world.
    pub open spec fn tile(self, x: int, y: int) -> u8 {
        self.world[x + y * WORLD_WIDTH]
    }
}

/// Sprite and tile memory, the tile world, the frame buffer, and where they
/// are seen through.
pub struct Graphics {
    pub term: Term,
    pub rnd: Rnd,
    pub memory: Vec<u8>,
    pub memPtr: usize,
    pub c2b: HashMap<u32, u8>,
    pub world: Vec<u8>,
    pub worldDirty: Vec<bool>,
    pub sprites: Vec<Sprite>,
    pub spriteTileCenterAdj: Mvec,
    pub field: Mvec,
    pub spriteField: Mvec,
    pub view: Mvec,
    pub spriteView: Mvec,
    pub rasterView: Mvec,
    pub framebuff: Vec<u8>,
    pub last: Vec<u8>,
    pub msg: String,
}

impl View for Graphics {
    type V = GraphicsView;

    open spec fn view(&self) -> GraphicsView {
        GraphicsView {
            term_h: self.term.h,
            term_w: self.term.w,
            rnd: self.rnd@,
            memory: self.memory@,
            mem_ptr: self.memPtr as nat,
            colors: self.c2b@,
            world: self.world@,
            dirty: self.worldDirty@,
            sprites: self.sprites@,
            center_adj: self.spriteTileCenterAdj,
            field: self.field,
            sprite_field: self.spriteField,
            view: self.view,
            sprite_view: self.spriteView,
            raster_view: self.rasterView,
            framebuff: self.framebuff@,
            last: self.last@,
            msg: self.msg@,
        }
    }
}

/// The state that `Graphics::new` builds for a terminal of `h` by `w` cells.
pub open spec fn initial_graphics(h: usize, w: usize) -> GraphicsView {
    GraphicsView {
        term_h: h,
        term_w: w,
        rnd: crate::util::rnd_seed(),
        memory: Seq::new(MEMORYSIZE as nat, |i: int| 0u8),
        mem_ptr: 0,
        colors: Map::empty(),
        world: Seq::new(WORLD_VOLUME as nat, |i: int| 1u8),
        dirty: Seq::new(WORLD_VOLUME as nat, |i: int| true),
        sprites: Seq::new(SPRITECOUNT as nat, |i: int| default_sprite()),
        center_adj: Mvec {
            w: WINDOW_WIDTH,
            h: WINDOW_HEIGHT,
            x: coord_raw(WINDOW_WIDTH, (usize::MAX - 3) as usize),
            y: coord_raw(WINDOW_HEIGHT, (usize::MAX - 3) as usize),
        },
        field: Mvec { w: WORLD_WIDTH, h: WORLD_HEIGHT, x: coord_raw(WORLD_WIDTH, 0), y: coord_raw(WORLD_HEIGHT, 0) },
        sprite_field: Mvec { w: WORLD_WIDTH, h: WORLD_HEIGHT, x: coord_raw(WORLD_WIDTH, 0), y: coord_raw(WORLD_HEIGHT, 0) },
        view: Mvec { w: WINDOW_WIDTH, h: WINDOW_HEIGHT, x: coord_raw(WINDOW_WIDTH, 0), y: coord_raw(WINDOW_HEIGHT, 0) },
        sprite_view: Mvec { w: WINDOW_WIDTH, h: WINDOW_HEIGHT, x: coord_raw(WINDOW_WIDTH, 0), y: coord_raw(WINDOW_HEIGHT, 0) },
        raster_view: Mvec { w: 0, h: 0, x: 0, y: 0 },
        framebuff: Seq::new(WINDOW_VOLUME as nat, |i: int| 0u8),
        last: Seq::new(WINDOW_VOLUME as nat, |i: int| 255u8),
        msg: Seq::empty(),
    }
}

/// The offset that centres a sprite on a tile: half the difference of their
/// widths, below zero, as a wrapping machine integer.
fn center_offset() -> (r: usize)
    ensures
        r == usize::MAX - 3,
{
    0usize.wrapping_sub((SPRITE_WIDTH - TILE_WIDTH) / 2)
}

impl Graphics {
    /// Graphics for the terminal `term`: empty memory, a world of pill tiles
    /// that all need drawing, sixteen hidden sprites.
    pub fn new(term: Term) -> (g: Graphics)
        ensures
            g@ == initial_graphics(term.h, term.w),
            g@.wf(),
    {
        let mut sprites: Vec<Sprite> = Vec::new();
        let mut i: usize = 0;
        while i < SPRITECOUNT
            invariant
                i <= SPRITECOUNT,
                sprites@ == Seq::new(i as nat, |k: int| default_sprite()),
            decreases SPRITECOUNT - i,
        {
            sprites.push(Sprite::default());
            i += 1;
        }
        let adj = center_offset();
        let g = Graphics {
            term,
            rnd: Rnd::new(),
            memory: vec![0u8; MEMORYSIZE],
            memPtr: 0,
            c2b: HashMap::new(),
            world: vec![1u8; WORLD_VOLUME],
            worldDirty: vec![true; WORLD_VOLUME],
            sprites,
            spriteTileCenterAdj: Mvec::new(WINDOW_WIDTH, WINDOW_HEIGHT, adj, adj),
            field: Mvec::new(WORLD_WIDTH, WORLD_HEIGHT, 0, 0),
            spriteField: Mvec::new(WORLD_WIDTH, WORLD_HEIGHT, 0, 0),
            view: Mvec::new(WINDOW_WIDTH, WINDOW_HEIGHT, 0, 0),
            spriteView: Mvec::new(WINDOW_WIDTH, WINDOW_HEIGHT, 0, 0),
            rasterView: Mvec { w: 0, h: 0, x: 0, y: 0 },
            framebuff: vec![0u8; WINDOW_VOLUME],
            last: vec![255u8; WINDOW_VOLUME],
            msg: String::new(),
        };
        assert(g@.memory =~= initial_graphics(g.term.h, g.term.w).memory);
        assert(g@.world =~= initial_graphics(g.term.h, g.term.w).world);
        assert(g@.dirty =~= initial_graphics(g.term.h, g.term.w).dirty);
        assert(g@.framebuff =~= initial_graphics(g.term.h, g.term.w).framebuff);
        assert(g@.last =~= initial_graphics(g.term.h, g.term.w).last);
        assert(g@.msg =~= Seq::<char>::empty());
        g
    }

    /// Chooses the colours that the characters of the next pictures stand for.
    pub fn memorySetCharColorMap(&mut self, m2c: &[(char, u8)])
        ensures
            final(self)@ == (GraphicsView { colors: code_map(m2c@), ..old(self)@ }),
            forall|i: int| 0 <= i < m2c@.len() ==> #[trigger] final(self)@.colors.contains_key(m2c@[i].0 as u32),
    {
        let map = color_map_of(m2c);
        self.c2b = map;
        proof {
            lemma_code_map_contains(m2c@);
        }
    }

    /// Copies the pictures `s` into memory at the memory cursor, one
    /// character after the other, each character as its colour; moves the
    /// cursor past them and returns where they start.
    pub fn initializeMemory(&mut self, s: &[&str]) -> (start: usize)
        requires
            old(self)@.wf(),
            old(self)@.mem_ptr + flat_strs(s@).len() <= MEMORYSIZE,
            all_coded(old(self)@.colors, flat_strs(s@)),
        ensures
            start == old(self)@.mem_ptr,
            final(self)@ == (GraphicsView {
                memory: write_run(old(self)@.memory, start as int, encode_chars(old(self)@.colors, flat_strs(s@))),
                mem_ptr: old(self)@.mem_ptr + flat_strs(s@).len(),
                ..old(self)@
            }),
    {
        let start = self.memPtr;
        let ghost cm = self.c2b@;
        let ghost mem0 = self.memory@;
        let mut i: usize = 0;
        assert(s@.take(0) =~= Seq::<&str>::empty());
        assert(write_run(mem0, start as int, encode_chars(cm, flat_strs(s@.take(0)))) =~= mem0);
        while i < s.len()
            invariant
                i <= s@.len(),
                self.c2b@ == cm,
                self@ == (GraphicsView {
                    memory: write_run(mem0, start as int, encode_chars(cm, flat_strs(s@.take(i as int)))),
                    mem_ptr: start as nat + flat_strs(s@.take(i as int)).len(),
                    ..old(self)@
                }),
                start + flat_strs(s@).len() <= MEMORYSIZE,
                all_coded(cm, flat_strs(s@)),
                mem0 == old(self)@.memory,
                mem0.len() == MEMORYSIZE,
            decreases s@.len() - i,
        {
            let ghost done = flat_strs(s@.take(i as int));
            proof {
                lemma_flat_strs_take(s@, i as int);
                assert(s@.take(i + 1).drop_last() =~= s@.take(i as int));
                assert forall|k: int| 0 <= k < flat_strs(s@.take(i + 1)).len() implies #[trigger] cm.contains_key(flat_strs(s@.take(i + 1))[k] as u32) by {
                    assert(flat_strs(s@.take(i + 1))[k] == flat_strs(s@)[k]);
                }
                assert(done + s@[i as int]@.take(0) =~= done);
            }
            let row: &str = s[i];
            for c in it: row.chars()
                invariant
                    it.seq() == row@,
                    self.c2b@ == cm,
                    self@ == (GraphicsView {
                        memory: write_run(mem0, start as int, encode_chars(cm, done + row@.take(it.index() as int))),
                        mem_ptr: start as nat + done.len() + it.index() as nat,
                        ..old(self)@
                    }),
                    done + row@ == flat_strs(s@.take(i + 1)),
                    start + flat_strs(s@.take(i + 1)).len() <= MEMORYSIZE,
                    all_coded(cm, flat_strs(s@.take(i + 1))),
                    mem0.len() == MEMORYSIZE,
            {
                let ghost j = it.index();
                proof {
                    assert(flat_strs(s@.take(i + 1))[done.len() + j] == c);
                }
                let b = match self.c2b.get(&(c as u32)) {
                    Some(v) => *v,
                    None => 0,
                };
                self.memory.set(self.memPtr, b);
                self.memPtr = self.memPtr + 1;
                proof {
                    assert(done + row@.take(j + 1) =~= (done + row@.take(j)).push(c));
                    assert(self.memory@ =~= write_run(mem0, start as int, encode_chars(cm, done + row@.take(j + 1))));
                }
            }
            proof {
                assert(row@.take(row@.len() as int) =~= row@);
            }
            i += 1;
        }
        assert(s@.take(s@.len() as int) =~= s@);
        start
    }

    /// Paints the world: row `y` of `s` goes to world row `y`, each
    /// character as the colour that the pairs `m` give it.
    pub fn initializeFieldData(&mut self, m: &[(char, u8)], s: &[&str])
        requires
            old(self)@.wf(),
            forall|y: int| 0 <= y < s@.len() ==> y * WORLD_WIDTH + (#[trigger] s@[y])@.len() <= WORLD_VOLUME,
            forall|y: int| 0 <= y < s@.len() ==> all_coded(code_map(m@), (#[trigger] s@[y])@),
        ensures
            final(self)@ == (GraphicsView {
                world: paint_rows(old(self)@.world, code_map(m@), str_views(s@)),
                ..old(self)@
            }),
    {
        let char2clr = color_map_of(m);
        let ghost cm = code_map(m@);
        let mut y: usize = 0;
        assert(str_views(s@).take(0) =~= Seq::<Seq<char>>::empty());
        while y < s.len()
            invariant
                y <= s@.len(),
                char2clr@ == cm,
                self@ == (GraphicsView {
                    world: paint_rows(old(self)@.world, cm, str_views(s@).take(y as int)),
                    ..old(self)@
                }),
                old(self)@.wf(),
                forall|r: int| 0 <= r < s@.len() ==> r * WORLD_WIDTH + (#[trigger] s@[r])@.len() <= WORLD_VOLUME,
                forall|r: int| 0 <= r < s@.len() ==> all_coded(cm, (#[trigger] s@[r])@),
            decreases s@.len() - y,
        {
            let ghost before = self.world@;
            let row: &str = s[y];
            assert(all_coded(cm, row@));
            assert(y * WORLD_WIDTH + row@.len() <= WORLD_VOLUME);
            let mut x: usize = 0;
            proof {
                lemma_paint_rows_len(old(self)@.world, cm, str_views(s@).take(y as int));
                assert(write_run(before, y * WORLD_WIDTH, encode_chars(cm, row@.take(0))) =~= before);
            }
            for c in it: row.chars()
                invariant
                    it.seq() == row@,
                    x == it.index(),
                    char2clr@ == cm,
                    all_coded(cm, row@),
                    y < s@.len(),
                    y * WORLD_WIDTH + row@.len() <= WORLD_VOLUME,
                    before.len() == WORLD_VOLUME,
                    self@ == (GraphicsView {
                        world: write_run(before, y * WORLD_WIDTH, encode_chars(cm, row@.take(x as int))),
                        ..old(self)@
                    }),
            {
                assert(row@[x as int] == c);
                assert(cm.contains_key(row@[x as int] as u32));
                let b = match char2clr.get(&(c as u32)) {
                    Some(v) => *v,
                    None => 0,
                };
                self.world.set(x + y * WORLD_WIDTH, b);
                proof {
                    assert(self.world@ =~= write_run(before, y * WORLD_WIDTH, encode_chars(cm, row@.take(x + 1))));
                }
                x = x + 1;
            }
            proof {
                assert(row@.take(row@.len() as int) =~= row@);
                let rows = str_views(s@).take(y + 1);
                assert(rows.drop_last() =~= str_views(s@).take(y as int));
                assert(rows.last() == row@);
            }
            y += 1;
        }
        assert(str_views(s@).take(s@.len() as int) =~= str_views(s@));
    }

    /// The tile at column `x` and row `y`.
    fn getFieldTile(&self, x: usize, y: usize) -> (t: u8)
        requires
            self@.wf(),
            x + y * WORLD_WIDTH < WORLD_VOLUME,
        ensures
            t == self@.tile(x as int, y as int),
    {
        self.world[x + y * WORLD_WIDTH]
    }

    /// The four neighbours of the tile at column `xf` and row `yf`, right,
    /// down, left and up, each as `f` of its tile, its direction and its
    /// coordinates.  Right and left wrap within the row; down and up wrap
    /// around the whole world.
    pub fn getFieldTiles<F: Fn(u8) -> R, R>(&self, xf: usize, yf: usize, f: F) -> (r: [(R, usize, isize, isize); 4])
        requires
            self@.wf(),
            yf < WORLD_HEIGHT,
            xf + 1 <= isize::MAX,
            xf + WORLD_VOLUME <= usize::MAX,
            forall|t: u8| f.requires((t,)),
        ensures
            forall|d: int| 0 <= d < 4 ==> f.ensures((self@.world[neighbor_index(xf as int, yf as int, d)],), #[trigger] r@[d].0),
            forall|d: int| 0 <= d < 4 ==> #[trigger] r@[d].1 == d,
            forall|d: int| 0 <= d < 4 ==> #[trigger] r@[d].2 == xf + dir_dx(d as usize),
            forall|d: int| 0 <= d < 4 ==> #[trigger] r@[d].3 == yf + dir_dy(d as usize),
    {
        let y = yf * WORLD_WIDTH;
        let t0 = self.world[(xf + 1) % WORLD_WIDTH + y];
        let t1 = self.world[(xf + y + WORLD_WIDTH) % WORLD_VOLUME];
        let t2 = self.world[(xf + WORLD_WIDTH - 1) % WORLD_WIDTH + y];
        let t3 = self.world[(xf + y + WORLD_VOLUME - WORLD_WIDTH) % WORLD_VOLUME];
        let r = [
            (f(t0), 0, xf as isize + 1, yf as isize),
            (f(t1), 1, xf as isize, yf as isize + 1),
            (f(t2), 2, xf as isize - 1, yf as isize),
            (f(t3), 3, xf as isize, yf as isize - 1),
        ];
        assert(r@[0].0 == r[0].0);
        r
    }

    /// Sets the tile at column `x` and row `y` and returns the tile it replaced.
    pub fn setFieldTile(&mut self, x: usize, y: usize, tile: u8) -> (old_tile: u8)
        requires
            old(self)@.wf(),
            x + y * WORLD_WIDTH < WORLD_VOLUME,
        ensures
            old_tile == old(self)@.tile(x as int, y as int),
            final(self)@ == (GraphicsView { world: old(self)@.world.update(x + y * WORLD_WIDTH, tile), ..old(self)@ }),
    {
        let old_tile = self.world[x + y * WORLD_WIDTH];
        self.world.set(x + y * WORLD_WIDTH, tile);
        old_tile
    }

    /// Moves sprite `sprite` to (`x`, `y`) in the window.
    pub fn setSpriteLocWindow(&mut self, sprite: usize, x: usize, y: usize)
        requires
            old(self)@.wf(),
            sprite < SPRITECOUNT,
        ensures
            final(self)@ == (GraphicsView {
                sprites: old(self)@.sprites.update(sprite as int, Sprite {
                    locWindow: Mvec {
                        x: coord_raw(old(self)@.sprites[sprite as int].locWindow.w, x),
                        y: coord_raw(old(self)@.sprites[sprite as int].locWindow.h, y),
                        ..old(self)@.sprites[sprite as int].locWindow
                    },
                    ..old(self)@.sprites[sprite as int]
                }),
                ..old(self)@
            }),
    {
        let mut s = self.sprites[sprite];
        s.locWindow.set(x, y);
        self.sprites.set(sprite, s);
    }

    /// Moves sprite `sprite` by `mag` pixels in direction `dir`.
    pub fn shiftSprite(&mut self, sprite: usize, dir: usize, mag: usize)
        requires
            old(self)@.wf(),
            sprite < SPRITECOUNT,
        ensures
            final(self)@ == (GraphicsView {
                sprites: old(self)@.sprites.update(sprite as int, Sprite {
                    locWindow: mvec_shifted(old(self)@.sprites[sprite as int].locWindow, dir, mag),
                    ..old(self)@.sprites[sprite as int]
                }),
                ..old(self)@
            }),
    {
        let mut s = self.sprites[sprite];
        s.locWindow.shift(dir, mag);
        self.sprites.set(sprite, s);
    }

    /// Sizes the playing field to `w` by `h` tiles, the sprite field to two
    /// tiles more each way (room for a sprite to leave one side and come back
    /// on the other), and the pixel views to match.
    pub fn setFieldSize(&mut self, w: usize, h: usize)
        requires
            (w + 2) * TILE_WIDTH <= usize::MAX,
            (h + 2) * TILE_HEIGHT <= usize::MAX,
        ensures
            final(self)@ == field_sized(old(self)@, w, h),
    {
        self.field = Mvec::new(w, h, 0, 0);
        self.view = Mvec::new(w * TILE_WIDTH, h * TILE_HEIGHT, 0, 0);
        self.spriteField = Mvec::new(
            w + (SPRITE_WIDTH + TILE_WIDTH - 1) / TILE_WIDTH,
            h + (SPRITE_HEIGHT + TILE_HEIGHT - 1) / TILE_HEIGHT,
            0,
            0,
        );
        self.spriteView = Mvec::new(self.spriteField.w * TILE_WIDTH, self.spriteField.h * TILE_HEIGHT, 0, 0);
        let adj = center_offset();
        self.spriteTileCenterAdj = Mvec::new(self.spriteView.w, self.spriteView.h, adj, adj);
    }

    /// Places the raster view, as large as the terminal allows within the
    /// view, so that sprite `sprite` stands at its centre where possible,
    /// clamped to the view.
    pub fn centerRasterView(&mut self, sprite: usize)
        requires
            old(self)@.wf(),
            sprite < SPRITECOUNT,
            old(self)@.sprites[sprite as int].locWindow.w > 0,
            old(self)@.sprites[sprite as int].locWindow.h > 0,
            old(self)@.sprites[sprite as int].locWindow.col() + SPRITE_WIDTH / 2 <= usize::MAX,
            old(self)@.sprites[sprite as int].locWindow.row() + SPRITE_HEIGHT / 2 <= usize::MAX,
            0 < old(self)@.sprite_view.w <= isize::MAX,
            0 < old(self)@.sprite_view.h <= isize::MAX,
            old(self)@.view.w <= isize::MAX,
            old(self)@.view.h <= isize::MAX,
        ensures
            final(self)@ == centered(old(self)@, sprite as int),
    {
        let x = self.sprites[sprite].locWindow.x();
        let y = self.sprites[sprite].locWindow.y();
        let w = if self.term.w < self.view.w { self.term.w } else { self.view.w };
        let h = if self.term.h < self.view.h { self.term.h } else { self.view.h };
        self.rasterView.w = w;
        self.rasterView.h = h;
        let cx: isize = ((x + SPRITE_WIDTH / 2) % self.spriteView.w) as isize - (w as isize / 2);
        let lx: isize = if 0 > cx { 0 } else { cx };
        let hx: isize = (self.view.w - w) as isize;
        self.rasterView.x = (if lx <= hx { lx } else { hx }) as usize;
        let cy: isize = ((y + SPRITE_HEIGHT / 2) % self.spriteView.h) as isize - (h as isize / 2);
        let ly: isize = if 0 > cy { 0 } else { cy };
        let hy: isize = (self.view.h - h) as isize;
        self.rasterView.y = (if ly <= hy { ly } else { hy }) as usize;
    }

    /// Marks cell `c` as needing drawing.
    fn mark_dirty(&mut self, c: usize)
        requires
            old(self)@.wf(),
            c < WORLD_VOLUME,
        ensures
            final(self)@ == (GraphicsView { dirty: old(self)@.dirty.update(c as int, true), ..old(self)@ }),
    {
        self.worldDirty.set(c, true);
    }

    /// Draws a frame into the frame buffer: first every field tile that
    /// needs drawing, from the tile pictures that start at `dataTiles`; then
    /// every shown sprite in order, its transparent (zero) pixels left out,
    /// wrapping around the sprite view.  Drawn tiles become clean; the tiles
    /// under each shown sprite are marked for drawing next time.
    pub fn rasterizeTilesSprites(&mut self, dataTiles: usize)
        requires
            raster_ready(old(self)@, dataTiles as int),
        ensures
            final(self)@ == (GraphicsView {
                framebuff: rasterized_frame(old(self)@, dataTiles as int),
                dirty: rasterized_dirty(old(self)@),
                ..old(self)@
            }),
    {
        let ghost o = self@;
        let ghost d = dataTiles as int;
        // tiles
        let mut fy: usize = 0;
        while fy < self.field.h
            invariant
                raster_ready(o, d),
                d == dataTiles,
                fy <= o.field.h,
                self@ == (GraphicsView { framebuff: self@.framebuff, dirty: self@.dirty, ..o }),
                self@.framebuff.len() == WINDOW_VOLUME,
                self@.dirty.len() == WORLD_VOLUME,
                forall|p: int| 0 <= p < WINDOW_VOLUME ==> #[trigger] self@.framebuff[p] == tile_layer_upto(o, d, p, fy as int, 0, 0, 0),
                forall|c: int| 0 <= c < WORLD_VOLUME ==> #[trigger] self@.dirty[c] == dirty_upto(o, c, fy as int, 0),
            decreases o.field.h - fy,
        {
            let mut fx: usize = 0;
            while fx < self.field.w
                invariant
                    raster_ready(o, d),
                    d == dataTiles,
                    fy < o.field.h,
                    fx <= o.field.w,
                    self@ == (GraphicsView { framebuff: self@.framebuff, dirty: self@.dirty, ..o }),
                    self@.framebuff.len() == WINDOW_VOLUME,
                    self@.dirty.len() == WORLD_VOLUME,
                    forall|p: int| 0 <= p < WINDOW_VOLUME ==> #[trigger] self@.framebuff[p] == tile_layer_upto(o, d, p, fy as int, fx as int, 0, 0),
                    forall|c: int| 0 <= c < WORLD_VOLUME ==> #[trigger] self@.dirty[c] == dirty_upto(o, c, fy as int, fx as int),
                decreases o.field.w - fx,
            {
                let c = fx + fy * WORLD_WIDTH;
                proof {
                    lemma_cell_decompose(fx as int, fy as int);
                }
                if !self.worldDirty[c] {
                    proof {
                        assert(!o.dirty[c as int]);
                        assert forall|p: int| 0 <= p < WINDOW_VOLUME implies #[trigger] self@.framebuff[p] == tile_layer_upto(o, d, p, fy as int, fx + 1, 0, 0) by {
                            lemma_pixel_compose(p);
                        }
                        assert forall|c2: int| 0 <= c2 < WORLD_VOLUME implies #[trigger] self@.dirty[c2] == dirty_upto(o, c2, fy as int, fx + 1) by {
                            lemma_cell_compose(c2);
                        }
                    }
                    fx += 1;
                    continue;
                }
                self.worldDirty.set(c, false);
                proof {
                    assert forall|c2: int| 0 <= c2 < WORLD_VOLUME implies #[trigger] self@.dirty[c2] == dirty_upto(o, c2, fy as int, fx + 1) by {
                        lemma_cell_compose(c2);
                    }
                    assert(o.dirty[c as int]);
                    assert(in_field(o, fx as int, fy as int));
                    assert(o.world[c as int] * TILE_VOLUME + d + TILE_VOLUME <= MEMORYSIZE);
                }
                let roffset = fx * TILE_WIDTH + fy * TILE_VOLUME * WORLD_WIDTH;
                let mut ptr = self.getFieldTile(fx, fy) as usize * TILE_VOLUME + dataTiles;
                let ghost base = ptr as int;
                let mut ty: usize = 0;
                while ty < TILE_HEIGHT
                    invariant
                        raster_ready(o, d),
                        d == dataTiles,
                        fy < o.field.h,
                        fx < o.field.w,
                        c == cell(fx as int, fy as int),
                        0 <= c < WORLD_VOLUME,
                        o.dirty[c as int],
                        base == o.world[c as int] * TILE_VOLUME + d,
                        base + TILE_VOLUME <= MEMORYSIZE,
                        roffset == fx * TILE_WIDTH + fy * TILE_VOLUME * WORLD_WIDTH,
                        ty <= TILE_HEIGHT,
                        ptr == base + ty * TILE_WIDTH,
                        self@ == (GraphicsView { framebuff: self@.framebuff, dirty: self@.dirty, ..o }),
                        self@.framebuff.len() == WINDOW_VOLUME,
                        self@.dirty.len() == WORLD_VOLUME,
                        forall|p: int| 0 <= p < WINDOW_VOLUME ==> #[trigger] self@.framebuff[p] == tile_layer_upto(o, d, p, fy as int, fx as int, ty as int, 0),
                        forall|c2: int| 0 <= c2 < WORLD_VOLUME ==> #[trigger] self@.dirty[c2] == dirty_upto(o, c2, fy as int, fx + 1),
                    decreases TILE_HEIGHT - ty,
                {
                    let mut tx: usize = 0;
                    while tx < TILE_WIDTH
                        invariant
                            raster_ready(o, d),
                            d == dataTiles,
                            fy < o.field.h,
                            fx < o.field.w,
                            c == cell(fx as int, fy as int),
                            0 <= c < WORLD_VOLUME,
                            o.dirty[c as int],
                            base == o.world[c as int] * TILE_VOLUME + d,
                            base + TILE_VOLUME <= MEMORYSIZE,
                            roffset == fx * TILE_WIDTH + fy * TILE_VOLUME * WORLD_WIDTH,
                            ty < TILE_HEIGHT,
                            tx <= TILE_WIDTH,
                            ptr == base + ty * TILE_WIDTH + tx,
                            self@ == (GraphicsView { framebuff: self@.framebuff, dirty: self@.dirty, ..o }),
                            self@.framebuff.len() == WINDOW_VOLUME,
                            self@.dirty.len() == WORLD_VOLUME,
                            forall|p: int| 0 <= p < WINDOW_VOLUME ==> #[trigger] self@.framebuff[p] == tile_layer_upto(o, d, p, fy as int, fx as int, ty as int, tx as int),
                            forall|c2: int| 0 <= c2 < WORLD_VOLUME ==> #[trigger] self@.dirty[c2] == dirty_upto(o, c2, fy as int, fx + 1),
                        decreases TILE_WIDTH - tx,
                    {
                        let ghost p0 = pix_at(fx as int, tx as int, fy as int, ty as int);
                        proof {
                            lemma_pixel_decompose(fx as int, tx as int, fy as int, ty as int);
                            assert(roffset + tx + ty * WINDOW_WIDTH == p0);
                        }
                        let b = self.memory[ptr];
                        self.framebuff.set(roffset + tx + ty * WINDOW_WIDTH, b);
                        proof {
                            assert(tile_pix(o, d, p0) == b);
                            assert forall|p: int| 0 <= p < WINDOW_VOLUME implies #[trigger] self@.framebuff[p] == tile_layer_upto(o, d, p, fy as int, fx as int, ty as int, tx + 1) by {
                                lemma_pixel_compose(p);
                                if p != p0 {
                                    assert(pix_before(p, fy as int, fx as int, ty as int, tx + 1) == pix_before(p, fy as int, fx as int, ty as int, tx as int));
                                }
                            }
                        }
                        ptr += 1;
                        tx += 1;
                    }
                    proof {
                        assert forall|p: int| 0 <= p < WINDOW_VOLUME implies #[trigger] self@.framebuff[p] == tile_layer_upto(o, d, p, fy as int, fx as int, ty + 1, 0) by {
                            lemma_pixel_compose(p);
                        }
                    }
                    ty += 1;
                }
                proof {
                    assert forall|p: int| 0 <= p < WINDOW_VOLUME implies #[trigger] self@.framebuff[p] == tile_layer_upto(o, d, p, fy as int, fx + 1, 0, 0) by {
                        lemma_pixel_compose(p);
                    }
                }
                fx += 1;
            }
            proof {
                assert forall|p: int| 0 <= p < WINDOW_VOLUME implies #[trigger] self@.framebuff[p] == tile_layer_upto(o, d, p, fy + 1, 0, 0, 0) by {
                    lemma_pixel_compose(p);
                }
                assert forall|c2: int| 0 <= c2 < WORLD_VOLUME implies #[trigger] self@.dirty[c2] == dirty_upto(o, c2, fy + 1, 0) by {
                    lemma_cell_compose(c2);
                }
            }
            fy += 1;
        }
        proof {
            assert forall|p: int| 0 <= p < WINDOW_VOLUME implies #[trigger] self@.framebuff[p] == frame_upto(o, d, 0, 0, p) by {
                lemma_pixel_compose(p);
            }
            assert forall|c2: int| 0 <= c2 < WORLD_VOLUME implies #[trigger] self@.dirty[c2] == (marked_before(o, 0, c2) || (o.dirty[c2] && !in_field(o, c2 % (WORLD_WIDTH as int), c2 / (WORLD_WIDTH as int)))) by {
                lemma_cell_compose(c2);
            }
        }
        // sprites
        let mut s: usize = 0;
        while s < SPRITECOUNT
            invariant
                raster_ready(o, d),
                d == dataTiles,
                s <= SPRITECOUNT,
                self@ == (GraphicsView { framebuff: self@.framebuff, dirty: self@.dirty, ..o }),
                self@.framebuff.len() == WINDOW_VOLUME,
                self@.dirty.len() == WORLD_VOLUME,
                forall|p: int| 0 <= p < WINDOW_VOLUME ==> #[trigger] self@.framebuff[p] == frame_upto(o, d, s as int, 0, p),
                forall|c2: int| 0 <= c2 < WORLD_VOLUME ==> #[trigger] self@.dirty[c2] == (marked_before(o, s as int, c2) || (o.dirty[c2] && !in_field(o, c2 % (WORLD_WIDTH as int), c2 / (WORLD_WIDTH as int)))),
            decreases SPRITECOUNT - s,
        {
            if !self.sprites[s].en {
                proof {
                    assert forall|p: int| 0 <= p < WINDOW_VOLUME implies #[trigger] self@.framebuff[p] == frame_upto(o, d, s + 1, 0, p) by {
                        lemma_sprite_last_hidden(o, s as int, SPRITE_VOLUME as int, p);
                    }
                    assert forall|c2: int| 0 <= c2 < WORLD_VOLUME implies #[trigger] self@.dirty[c2] == (marked_before(o, s + 1, c2) || (o.dirty[c2] && !in_field(o, c2 % (WORLD_WIDTH as int), c2 / (WORLD_WIDTH as int)))) by {
                        assert(!sprite_marks(o, s as int, c2));
                    }
                }
                s += 1;
                continue;
            }
            proof {
                assert(o.sprites[s as int].en);
            }
            let xwindow = self.sprites[s].locWindow.x();
            let ywindow = self.sprites[s].locWindow.y();
            let (wsf, hsf) = (self.spriteField.w, self.spriteField.h);
            let xsf = xwindow / TILE_WIDTH;
            let ysf = ywindow / TILE_HEIGHT;
            let ghost dirty0 = self@.dirty;
            self.mark_dirty(xsf % wsf + (ysf % hsf) * WORLD_WIDTH);
            self.mark_dirty((xsf + 1) % wsf + (ysf % hsf) * WORLD_WIDTH);
            self.mark_dirty((xsf + 2) % wsf + (ysf % hsf) * WORLD_WIDTH);

            self.mark_dirty(xsf % wsf + ((1 + ysf) % hsf) * WORLD_WIDTH);
            self.mark_dirty((xsf + 1) % wsf + ((1 + ysf) % hsf) * WORLD_WIDTH);
            self.mark_dirty((xsf + 2) % wsf + ((1 + ysf) % hsf) * WORLD_WIDTH);

            self.mark_dirty(xsf % wsf + ((2 + ysf) % hsf) * WORLD_WIDTH);
            self.mark_dirty((xsf + 1) % wsf + ((2 + ysf) % hsf) * WORLD_WIDTH);
            self.mark_dirty((xsf + 2) % wsf + ((2 + ysf) % hsf) * WORLD_WIDTH);
            proof {
                assert forall|c2: int| 0 <= c2 < WORLD_VOLUME implies #[trigger] self@.dirty[c2] == (marked_before(o, s + 1, c2) || (o.dirty[c2] && !in_field(o, c2 % (WORLD_WIDTH as int), c2 / (WORLD_WIDTH as int)))) by {
                    lemma_sprite_marks_enum(o, s as int, c2);
                }
            }
            let spritedata = self.sprites[s].data;
            let mut shy: usize = 0;
            while shy < SPRITE_HEIGHT
                invariant
                    raster_ready(o, d),
                    d == dataTiles,
                    s < SPRITECOUNT,
                    o.sprites[s as int].en,
                    xwindow == o.sprites[s as int].locWindow.col(),
                    ywindow == o.sprites[s as int].locWindow.row(),
                    spritedata == o.sprites[s as int].data,
                    shy <= SPRITE_HEIGHT,
                    self@ == (GraphicsView { framebuff: self@.framebuff, dirty: self@.dirty, ..o }),
                    self@.framebuff.len() == WINDOW_VOLUME,
                    self@.dirty.len() == WORLD_VOLUME,
                    forall|p: int| 0 <= p < WINDOW_VOLUME ==> #[trigger] self@.framebuff[p] == frame_upto(o, d, s as int, shy * SPRITE_WIDTH, p),
                    forall|c2: int| 0 <= c2 < WORLD_VOLUME ==> #[trigger] self@.dirty[c2] == (marked_before(o, s + 1, c2) || (o.dirty[c2] && !in_field(o, c2 % (WORLD_WIDTH as int), c2 / (WORLD_WIDTH as int)))),
                decreases SPRITE_HEIGHT - shy,
            {
                let y = (ywindow + shy) % self.spriteView.h;
                let mut swx: usize = 0;
                while swx < SPRITE_WIDTH
                    invariant
                        raster_ready(o, d),
                        d == dataTiles,
                        s < SPRITECOUNT,
                        o.sprites[s as int].en,
                        xwindow == o.sprites[s as int].locWindow.col(),
                        ywindow == o.sprites[s as int].locWindow.row(),
                        spritedata == o.sprites[s as int].data,
                        shy < SPRITE_HEIGHT,
                        swx <= SPRITE_WIDTH,
                        y == (ywindow + shy) % (o.sprite_view.h as int),
                        self@ == (GraphicsView { framebuff: self@.framebuff, dirty: self@.dirty, ..o }),
                        self@.framebuff.len() == WINDOW_VOLUME,
                        self@.dirty.len() == WORLD_VOLUME,
                        forall|p: int| 0 <= p < WINDOW_VOLUME ==> #[trigger] self@.framebuff[p] == frame_upto(o, d, s as int, shy * SPRITE_WIDTH + swx, p),
                        forall|c2: int| 0 <= c2 < WORLD_VOLUME ==> #[trigger] self@.dirty[c2] == (marked_before(o, s + 1, c2) || (o.dirty[c2] && !in_field(o, c2 % (WORLD_WIDTH as int), c2 / (WORLD_WIDTH as int)))),
                    decreases SPRITE_WIDTH - swx,
                {
                    let x = (xwindow + swx) % self.spriteView.w;
                    let ghost k = shy * SPRITE_WIDTH + swx;
                    proof {
                        lemma_sprite_index(shy as int, swx as int);
                        assert(x + y * WINDOW_WIDTH == sprite_target(o, s as int, shy as int, swx as int));
                    }
                    let b = self.memory[spritedata + swx + shy * SPRITE_WIDTH];
                    if b != 0 {
                        self.framebuff.set(x + y * WINDOW_WIDTH, b);
                    }
                    proof {
                        assert(b == sprite_color(o, s as int, shy as int, swx as int));
                        assert forall|p: int| 0 <= p < WINDOW_VOLUME implies #[trigger] self@.framebuff[p] == frame_upto(o, d, s as int, k + 1, p) by {
                            assert(sprite_hit(o, s as int, k, p) == (b != 0 && p == x + y * WINDOW_WIDTH));
                        }
                    }
                    swx += 1;
                }
                shy += 1;
            }
            s += 1;
        }
        assert(self@.framebuff =~= rasterized_frame(o, d));
        assert(self@.dirty =~= rasterized_dirty(o));
    }

    /// The bytes that bring the terminal up to date with the raster view of
    /// the frame buffer (see `rows_state`): only cells that changed since the
    /// last frame are drawn.  Remembers what the terminal now shows.
    pub fn fieldBytes(&mut self) -> (out: Vec<u8>)
        requires
            old(self)@.wf(),
            old(self)@.raster_view.x + old(self)@.raster_view.w <= WINDOW_WIDTH,
            old(self)@.raster_view.y + old(self)@.raster_view.h <= WINDOW_HEIGHT,
        ensures
            out@ == rows_state(old(self)@, old(self)@.raster_view.h as int).out,
            final(self)@ == (GraphicsView { last: rows_state(old(self)@, old(self)@.raster_view.h as int).last, ..old(self)@ }),
            final(self)@.wf(),
    {
        let ghost o = self@;
        let w = self.rasterView.w;
        let h = self.rasterView.h;
        let mut buff: Vec<u8> = Vec::new();
        buff.push(0x1b);
        buff.push(0x5b);
        buff.push(0x48);
        buff.push(0x1b);
        buff.push(0x5b);
        buff.push(0x33);
        buff.push(0x30);
        buff.push(0x6d);
        assert(buff@ =~= header_bytes());
        let mut idx: usize = 0;
        let mut ridx: usize = self.rasterView.x + self.rasterView.y * WINDOW_WIDTH;
        let mut lastColor: u8 = 0;
        let mut loc: (usize, usize) = (0, 0);
        let mut y: usize = 0;
        while y < h
            invariant
                o.wf(),
                w == o.raster_view.w,
                h == o.raster_view.h,
                o.raster_view.x + w <= WINDOW_WIDTH,
                o.raster_view.y + h <= WINDOW_HEIGHT,
                y <= h,
                idx == y * WINDOW_WIDTH,
                ridx == o.raster_view.x + (o.raster_view.y + y) * WINDOW_WIDTH,
                self@ == (GraphicsView { last: self@.last, ..o }),
                self@.last.len() == WINDOW_VOLUME,
                (PrintState { out: buff@, last: self@.last, locx: loc.0 as int, locy: loc.1 as int, color: lastColor }) == rows_state(o, y as int),
            decreases h - y,
        {
            let mut x: usize = 0;
            while x < w
                invariant
                    o.wf(),
                    w == o.raster_view.w,
                    h == o.raster_view.h,
                    o.raster_view.x + w <= WINDOW_WIDTH,
                    o.raster_view.y + h <= WINDOW_HEIGHT,
                    y < h,
                    x <= w,
                    idx == y * WINDOW_WIDTH + x,
                    ridx == o.raster_view.x + x + (o.raster_view.y + y) * WINDOW_WIDTH,
                    self@ == (GraphicsView { last: self@.last, ..o }),
                    self@.last.len() == WINDOW_VOLUME,
                    (PrintState { out: buff@, last: self@.last, locx: loc.0 as int, locy: loc.1 as int, color: lastColor }) == row_state(o, rows_state(o, y as int), y as int, x as int),
                decreases w - x,
            {
                self.print_cell(&mut buff, &mut loc, &mut lastColor, x, y, idx, ridx);
                ridx += 1;
                idx += 1;
                x += 1;
            }
            idx += WINDOW_WIDTH - w;
            ridx += WINDOW_WIDTH - w;
            y += 1;
        }
        buff
    }

    /// Draws the terminal cell at column `x`, row `y` (see `cell_step`).
    #[verifier::spinoff_prover]
    #[verifier::rlimit(40)]
    fn print_cell(
        &mut self,
        buff: &mut Vec<u8>,
        loc: &mut (usize, usize),
        lastColor: &mut u8,
        x: usize,
        y: usize,
        idx: usize,
        ridx: usize,
    )
        requires
            old(self)@.wf(),
            x < WINDOW_WIDTH,
            y < WINDOW_HEIGHT,
            idx == x + y * WINDOW_WIDTH,
            ridx == old(self)@.raster_view.x + x + (old(self)@.raster_view.y + y) * WINDOW_WIDTH,
            ridx < WINDOW_VOLUME,
        ensures
            ({
                let st = PrintState { out: old(buff)@, last: old(self)@.last, locx: old(loc).0 as int, locy: old(loc).1 as int, color: *old(lastColor) };
                let next = cell_step(old(self)@, st, x as int, y as int);
                &&& next == (PrintState { out: final(buff)@, last: final(self)@.last, locx: final(loc).0 as int, locy: final(loc).1 as int, color: *final(lastColor) })
                &&& final(self)@ == (GraphicsView { last: final(self)@.last, ..old(self)@ })
                &&& final(self)@.last.len() == WINDOW_VOLUME
            }),
    {
        let ghost o = self@;
        let b = self.framebuff[ridx];
        let l = self.last[idx];
        assert(b == shown_pixel(o, x as int, y as int));
        if b != l {
            self.last.set(idx, b);
            // Update cursor
            if loc.0 != x || loc.1 != y {
                let ghost before = buff@;
                buff.push(0x1b);
                buff.push(0x5b);
                push_decimal(buff, y + 1);
                buff.push(0x3b);
                push_decimal(buff, x + 1);
                buff.push(0x48);
                assert(buff@ =~= before + cursor_to((y + 1) as nat, (x + 1) as nat));
            }
            *loc = (x + 1, y);
            let ghost mid = buff@;
            if 0 == b {
                buff.push(0x20);
                assert(buff@ =~= mid + seq![0x20u8]);
            } else {
                if *lastColor == b {
                    buff.push(0xe2);
                    buff.push(0x96);
                    buff.push(0x89);
                    assert(buff@ =~= mid + blk_bytes());
                } else {
                    *lastColor = b;
                    buff.push(0x1b);
                    buff.push(0x5b);
                    buff.push(0x33);
                    buff.push(0x38);
                    buff.push(0x3b);
                    buff.push(0x35);
                    buff.push(0x3b);
                    push_decimal(buff, b as usize);
                    buff.push(0x6d);
                    buff.push(0xe2);
                    buff.push(0x96);
                    buff.push(0x89);
                    assert(buff@ =~= mid + set_color(b) + blk_bytes());
                }
            }
        }
    }

    /// Points sprite `sprite` at the picture at `p`.
    pub fn setSpriteIdx(&mut self, sprite: usize, p: usize)
        requires
            old(self)@.wf(),
            sprite < SPRITECOUNT,
        ensures
            final(self)@ == (GraphicsView {
                sprites: old(self)@.sprites.update(sprite as int, Sprite { data: p, ..old(self)@.sprites[sprite as int] }),
                ..old(self)@
            }),
    {
        let mut s = self.sprites[sprite];
        s.data = p;
        self.sprites.set(sprite, s);
    }
}


/// Every character that a pair names has a colour in the map the pairs build.
pub proof fn lemma_code_map_contains(pairs: Seq<(char, u8)>)
    ensures
        forall|i: int| 0 <= i < pairs.len() ==> #[trigger] code_map(pairs).contains_key(pairs[i].0 as u32),
    decreases pairs.len(),
{
    if pairs.len() > 0 {
        lemma_code_map_contains(pairs.drop_last());
        assert(code_map(pairs) == code_map(pairs.drop_last()).insert(pairs.last().0 as u32, pairs.last().1));
        assert forall|i: int| 0 <= i < pairs.len() implies #[trigger] code_map(pairs).contains_key(pairs[i].0 as u32) by {
            if i < pairs.len() - 1 {
                assert(pairs.drop_last()[i] == pairs[i]);
                assert(code_map(pairs.drop_last()).contains_key(pairs.drop_last()[i].0 as u32));
            } else {
                assert(pairs[i] == pairs.last());
            }
        }
    }
}

/// The characters of the first `i + 1` strings are those of the first `i`
/// followed by those of string `i`, and they lead the characters of all.
pub proof fn lemma_flat_strs_take(s: Seq<&str>, i: int)
    requires
        0 <= i < s.len(),
    ensures
        flat_strs(s.take(i + 1)) == flat_strs(s.take(i)) + s[i]@,
        flat_strs(s.take(i + 1)).len() <= flat_strs(s).len(),
        forall|k: int| 0 <= k < flat_strs(s.take(i + 1)).len() ==> flat_strs(s.take(i + 1))[k] == #[trigger] flat_strs(s)[k],
    decreases s.len(),
{
    assert(s.take(i + 1).drop_last() =~= s.take(i));
    if i + 1 < s.len() {
        lemma_flat_strs_take(s.drop_last(), i);
        assert(s.drop_last().take(i + 1) =~= s.take(i + 1));
        assert(s.drop_last().take(i) =~= s.take(i));
    } else {
        assert(s.take(i + 1) =~= s);
    }
}


/// The views of the strings of `s`.
pub open spec fn str_views(s: Seq<&str>) -> Seq<Seq<char>> {
    Seq::new(s.len(), |i: int| s[i]@)
}

/// The world index of the neighbour of (`x`, `y`) in direction `d`: right
/// and left wrap within the row, down and up around the whole world.
pub open spec fn neighbor_index(x: int, y: int, d: int) -> int {
    if d == 0 {
        (x + 1) % (WORLD_WIDTH as int) + y * WORLD_WIDTH
    } else if d == 1 {
        (x + y * WORLD_WIDTH + WORLD_WIDTH) % (WORLD_VOLUME as int)
    } else if d == 2 {
        (x + WORLD_WIDTH - 1) % (WORLD_WIDTH as int) + y * WORLD_WIDTH
    } else {
        (x + y * WORLD_WIDTH + WORLD_VOLUME - WORLD_WIDTH) % (WORLD_VOLUME as int)
    }
}

/// The colour map of the pairs `m`.
fn color_map_of(m: &[(char, u8)]) -> (map: HashMap<u32, u8>)
    ensures
        map@ == code_map(m@),
{
    let mut map: HashMap<u32, u8> = HashMap::new();
    let mut i: usize = 0;
    while i < m.len()
        invariant
            i <= m@.len(),
            map@ == code_map(m@.take(i as int)),
        decreases m@.len() - i,
    {
        let (c, b) = m[i];
        map.insert(c as u32, b);
        assert(m@.take(i + 1).drop_last() =~= m@.take(i as int));
        i += 1;
    }
    assert(m@.take(m@.len() as int) =~= m@);
    map
}


/// Painting rows keeps the length of the world.
pub proof fn lemma_paint_rows_len(world: Seq<u8>, cm: Map<u32, u8>, rows: Seq<Seq<char>>)
    ensures
        paint_rows(world, cm, rows).len() == world.len(),
    decreases rows.len(),
{
    if rows.len() > 0 {
        lemma_paint_rows_len(world, cm, rows.drop_last());
    }
}


/// Every tile of `world` is at most `b`.
pub open spec fn tiles_at_most(world: Seq<u8>, b: u8) -> bool {
    forall|c: int| 0 <= c < world.len() ==> #[trigger] world[c] <= b
}

/// The colours of a map built from pairs are among the pairs' colours, so
/// a bound on those bounds them.
pub proof fn lemma_code_map_at_most(pairs: Seq<(char, u8)>, b: u8)
    requires
        forall|i: int| 0 <= i < pairs.len() ==> (#[trigger] pairs[i]).1 <= b,
    ensures
        forall|k: u32| code_map(pairs).contains_key(k) ==> #[trigger] code_map(pairs)[k] <= b,
    decreases pairs.len(),
{
    if pairs.len() > 0 {
        assert forall|i: int| 0 <= i < pairs.drop_last().len() implies (#[trigger] pairs.drop_last()[i]).1 <= b by {
            assert(pairs.drop_last()[i] == pairs[i]);
        }
        lemma_code_map_at_most(pairs.drop_last(), b);
        assert(pairs.last() == pairs[pairs.len() - 1]);
        let m0 = code_map(pairs.drop_last());
        assert forall|k: u32| code_map(pairs).contains_key(k) implies #[trigger] code_map(pairs)[k] <= b by {
            if k != pairs.last().0 as u32 {
                assert(m0.contains_key(k));
                assert(code_map(pairs)[k] == m0[k]);
            }
        }
    }
}

/// Painting rows whose characters all have colours at most `b` into a
/// world of tiles at most `b` leaves every tile at most `b`.
pub proof fn lemma_paint_rows_at_most(world: Seq<u8>, cm: Map<u32, u8>, rows: Seq<Seq<char>>, b: u8)
    requires
        tiles_at_most(world, b),
        forall|k: u32| cm.contains_key(k) ==> #[trigger] cm[k] <= b,
        forall|y: int| 0 <= y < rows.len() ==> all_coded(cm, #[trigger] rows[y]),
    ensures
        tiles_at_most(paint_rows(world, cm, rows), b),
    decreases rows.len(),
{
    if rows.len() > 0 {
        assert forall|y: int| 0 <= y < rows.drop_last().len() implies all_coded(cm, #[trigger] rows.drop_last()[y]) by {
            assert(rows.drop_last()[y] == rows[y]);
        }
        lemma_paint_rows_at_most(world, cm, rows.drop_last(), b);
        let w0 = paint_rows(world, cm, rows.drop_last());
        let row = rows.last();
        assert(all_coded(cm, rows[rows.len() - 1]));
        let start = (rows.len() - 1) * WORLD_WIDTH;
        let painted = paint_rows(world, cm, rows);
        assert forall|c: int| 0 <= c < painted.len() implies #[trigger] painted[c] <= b by {
            if start <= c < start + row.len() {
                assert(cm.contains_key(row[c - start] as u32));
            } else {
                assert(painted[c] == w0[c]);
            }
        }
    }
}

/// `o` with a playing field of `w` by `h` tiles, a sprite field two tiles
/// larger each way, the pixel views to match, and the centring offset of
/// half the difference of sprite and tile width below zero.
pub open spec fn field_sized(o: GraphicsView, w: usize, h: usize) -> GraphicsView {
    GraphicsView {
        field: mvec_at(w, h, 0, 0),
        view: mvec_at((w * TILE_WIDTH) as usize, (h * TILE_HEIGHT) as usize, 0, 0),
        sprite_field: mvec_at((w + 2) as usize, (h + 2) as usize, 0, 0),
        sprite_view: mvec_at(((w + 2) * TILE_WIDTH) as usize, ((h + 2) * TILE_HEIGHT) as usize, 0, 0),
        center_adj: mvec_at(
            ((w + 2) * TILE_WIDTH) as usize,
            ((h + 2) * TILE_HEIGHT) as usize,
            (usize::MAX - 3) as usize,
            (usize::MAX - 3) as usize,
        ),
        ..o
    }
}

/// `o` with the raster view as large as the terminal allows within the
/// view, placed so that sprite `s` stands at its centre where possible,
/// clamped to the view.
pub open spec fn centered(o: GraphicsView, s: int) -> GraphicsView {
    let loc = o.sprites[s].locWindow;
    let w = if o.term_w < o.view.w { o.term_w } else { o.view.w };
    let h = if o.term_h < o.view.h { o.term_h } else { o.view.h };
    GraphicsView {
        raster_view: Mvec {
            w,
            h,
            x: center_clamp(loc.col() + SPRITE_WIDTH / 2, o.sprite_view.w as int, w as int, o.view.w as int) as usize,
            y: center_clamp(loc.row() + SPRITE_HEIGHT / 2, o.sprite_view.h as int, h as int, o.view.h as int) as usize,
        },
        ..o
    }
}

/// The position (`x`, `y`) on a `w` by `h` torus, as `Mvec::new` makes it.
pub open spec fn mvec_at(w: usize, h: usize, x: usize, y: usize) -> Mvec {
    Mvec { w, h, x: coord_raw(w, x), y: coord_raw(h, y) }
}

/// The start of a window of length `win` within `[0, limit)` that centres
/// `p` taken modulo `size`, clamped to stay inside.
pub open spec fn center_clamp(p: int, size: int, win: int, limit: int) -> int {
    let c = p % size - win / 2;
    let lo = if 0 > c { 0 } else { c };
    if lo <= limit - win { lo } else { limit - win }
}


/// Strings of one length `len` hold `len` characters each.
pub proof fn lemma_flat_strs_uniform(s: Seq<&str>, len: nat)
    requires
        forall|i: int| 0 <= i < s.len() ==> (#[trigger] s[i])@.len() == len,
    ensures
        flat_strs(s).len() == s.len() * len,
    decreases s.len(),
{
    if s.len() > 0 {
        lemma_flat_strs_uniform(s.drop_last(), len);
        assert(s.last()@.len() == len);
        vstd::arithmetic::mul::lemma_mul_is_distributive_sub_other_way(len as int, s.len() as int, 1);
    }
}

/// Where every character of every string has a colour, so does every
/// character of them all.
pub proof fn lemma_all_coded_flat(cm: Map<u32, u8>, s: Seq<&str>)
    requires
        forall|i: int, j: int| 0 <= i < s.len() && 0 <= j < s[i]@.len() ==> cm.contains_key(#[trigger] s[i]@[j] as u32),
    ensures
        all_coded(cm, flat_strs(s)),
    decreases s.len(),
{
    if s.len() > 0 {
        lemma_all_coded_flat(cm, s.drop_last());
        let f = flat_strs(s.drop_last());
        let l = s.last()@;
        assert forall|k: int| 0 <= k < flat_strs(s).len() implies #[trigger] cm.contains_key(flat_strs(s)[k] as u32) by {
            if k < f.len() {
                assert(flat_strs(s)[k] == f[k]);
            } else {
                assert(flat_strs(s)[k] == l[k - f.len()]);
                assert(s[s.len() - 1]@[k - f.len()] == l[k - f.len()]);
            }
        }
    }
}


/// The raw value of a small coordinate on a short axis, whether `usize` has
/// 32 or 64 bits: the size shifted up by 32 bits (by none on 32 bits), plus
/// the coordinate, without wrapping.
proof fn lemma_coord_raw_value(size: usize, v: usize)
    requires
        size < 0x10000,
        v < 0x8000_0000,
    ensures
        coord_raw(size, v) == (if usize::BITS == 64 { size * 0x1_0000_0000 + v } else { size + v }),
{
    assert(usize_specs::wrapping_shl(size, 32) == size << (32u32 % usize::BITS));
    if usize::BITS == 64 {
        assert(size << (32u32 % usize::BITS) == size << 32u32);
        assert(size < 0x10000 ==> (size << 32u32) == size * 0x1_0000_0000) by (bit_vector)
            requires usize::BITS == 64;
        assert(usize::MAX == 0xffff_ffff_ffff_ffff);
    } else {
        assert(usize::BITS == 32);
        assert(size << (32u32 % usize::BITS) == size << 0u32);
        assert(size << 0u32 == size) by (bit_vector);
        assert(usize::MAX == 0xffff_ffff);
    }
}

/// A position made by `Mvec::new` on a torus shorter than 2^16 each way, from
/// coordinates below 2^31, reads back its coordinates modulo the size.
pub proof fn lemma_new_reads_back(w: usize, h: usize, x: usize, y: usize)
    requires
        0 < w < 0x10000,
        0 < h < 0x10000,
        x < 0x8000_0000,
        y < 0x8000_0000,
    ensures
        mvec_at(w, h, x, y).col() == x % w,
        mvec_at(w, h, x, y).row() == y % h,
{
    lemma_coord_raw_value(w, x);
    lemma_coord_raw_value(h, y);
    if usize::BITS == 64 {
        vstd::arithmetic::div_mod::lemma_mod_multiples_vanish(0x1_0000_0000, x as int, w as int);
        vstd::arithmetic::div_mod::lemma_mod_multiples_vanish(0x1_0000_0000, y as int, h as int);
    } else {
        vstd::arithmetic::div_mod::lemma_mod_multiples_vanish(1, x as int, w as int);
        vstd::arithmetic::div_mod::lemma_mod_multiples_vanish(1, y as int, h as int);
    }
}

/// Moving right or down by `mag` moves the column or row `mag` further
/// around the torus, and moving left or up by `mag` moves it `mag` back,
/// as long as the raw coordinate does not wrap.
pub proof fn lemma_shift_moves(m: Mvec, mag: usize)
    requires
        m.w > 0,
        m.h > 0,
    ensures
        m.x + mag <= usize::MAX ==> mvec_shifted(m, 0, mag).col() == (m.col() + mag) % (m.w as int),
        m.y + mag <= usize::MAX ==> mvec_shifted(m, 1, mag).row() == (m.row() + mag) % (m.h as int),
        mag <= m.x ==> mvec_shifted(m, 2, mag).col() == (m.col() - mag) % (m.w as int),
        mag <= m.y ==> mvec_shifted(m, 3, mag).row() == (m.row() - mag) % (m.h as int),
        mvec_shifted(m, 0, mag).row() == m.row(),
        mvec_shifted(m, 2, mag).row() == m.row(),
        mvec_shifted(m, 1, mag).col() == m.col(),
        mvec_shifted(m, 3, mag).col() == m.col(),
{
    vstd::arithmetic::div_mod::lemma_add_mod_noop(m.x as int, mag as int, m.w as int);
    vstd::arithmetic::div_mod::lemma_add_mod_noop(m.y as int, mag as int, m.h as int);
    vstd::arithmetic::div_mod::lemma_sub_mod_noop(m.x as int, mag as int, m.w as int);
    vstd::arithmetic::div_mod::lemma_sub_mod_noop(m.y as int, mag as int, m.h as int);
    vstd::arithmetic::div_mod::lemma_mod_twice(mag as int, m.w as int);
    vstd::arithmetic::div_mod::lemma_mod_twice(mag as int, m.h as int);
    vstd::arithmetic::div_mod::lemma_add_mod_noop(m.col(), mag as int, m.w as int);
    vstd::arithmetic::div_mod::lemma_add_mod_noop(m.row(), mag as int, m.h as int);
    vstd::arithmetic::div_mod::lemma_sub_mod_noop(m.col(), mag as int, m.w as int);
    vstd::arithmetic::div_mod::lemma_sub_mod_noop(m.row(), mag as int, m.h as int);
    vstd::arithmetic::div_mod::lemma_mod_twice(m.x as int, m.w as int);
    vstd::arithmetic::div_mod::lemma_mod_twice(m.y as int, m.h as int);
}

/// The raster view that `centerRasterView` places lies inside the view.
pub proof fn lemma_centered_inside(o: GraphicsView, s: int)
    requires
        o.sprite_view.w > 0,
        o.sprite_view.h > 0,
    ensures
        0 <= centered(o, s).raster_view.x,
        centered(o, s).raster_view.x + centered(o, s).raster_view.w <= o.view.w,
        0 <= centered(o, s).raster_view.y,
        centered(o, s).raster_view.y + centered(o, s).raster_view.h <= o.view.h,
{
}

/// The raw value of a position just below zero on an axis shorter than
/// 2^16 leaves room above it, whether `usize` has 32 or 64 bits.
pub proof fn lemma_coord_raw_below_zero(size: usize, d: usize)
    requires
        size < 0x10000,
        0 < d < 0x10000,
        d <= size,
    ensures
        coord_raw(size, (usize::MAX - d + 1) as usize) + 0x10000 <= usize::MAX,
{
    let v: usize = (usize::MAX - d + 1) as usize;
    let sh: usize = usize_specs::wrapping_shl(size, 32);
    assert(sh == size << (32u32 % usize::BITS));
    if usize::BITS == 64 {
        assert(size << (32u32 % usize::BITS) == size << 32u32);
        assert(size < 0x10000 ==> (size << 32u32) <= 0xffff_0000_0000_0000) by (bit_vector)
            requires usize::BITS == 64;
        assert(size < 0x10000 && size >= 1 ==> (size << 32u32) >= 0x1_0000_0000) by (bit_vector)
            requires usize::BITS == 64;
        assert(usize::MAX == 0xffff_ffff_ffff_ffff);
    } else {
        assert(usize::BITS == 32);
        assert(size << (32u32 % usize::BITS) == size << 0u32);
        assert(size << 0u32 == size) by (bit_vector);
        assert(usize::MAX == 0xffff_ffff);
    }
}

} // verus!
