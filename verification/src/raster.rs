use vstd::prelude::*;

use crate::gfx::{
    GraphicsView, MEMORYSIZE, SPRITECOUNT, SPRITE_VOLUME, SPRITE_WIDTH, SPRITE_HEIGHT, TILE_WIDTH, TILE_HEIGHT, TILE_VOLUME,
    WORLD_WIDTH, WORLD_HEIGHT, WORLD_VOLUME, WINDOW_WIDTH, WINDOW_HEIGHT, WINDOW_VOLUME,
};

verus! {

// ---------------------------------------------------------------------------
// Pixels of the frame buffer and the tiles they belong to
// ---------------------------------------------------------------------------

/// The tile column of pixel `p` of the window.
pub open spec fn pix_fx(p: int) -> int {
    (p % (WINDOW_WIDTH as int)) / (TILE_WIDTH as int)
}

/// The column of pixel `p` within its tile.
pub open spec fn pix_tx(p: int) -> int {
    (p % (WINDOW_WIDTH as int)) % (TILE_WIDTH as int)
}

/// The tile row of pixel `p` of the window.
pub open spec fn pix_fy(p: int) -> int {
    (p / (WINDOW_WIDTH as int)) / (TILE_HEIGHT as int)
}

/// The row of pixel `p` within its tile.
pub open spec fn pix_ty(p: int) -> int {
    (p / (WINDOW_WIDTH as int)) % (TILE_HEIGHT as int)
}

/// The pixel at column `tx`, row `ty` of the tile at (`fx`, `fy`).
pub open spec fn pix_at(fx: int, tx: int, fy: int, ty: int) -> int {
    fx * TILE_WIDTH + tx + (fy * TILE_HEIGHT + ty) * WINDOW_WIDTH
}

/// A pixel names its tile and its place in the tile.
pub proof fn lemma_pixel_decompose(fx: int, tx: int, fy: int, ty: int)
    requires
        0 <= fx < WORLD_WIDTH,
        0 <= tx < TILE_WIDTH,
        0 <= fy < WORLD_HEIGHT,
        0 <= ty < TILE_HEIGHT,
    ensures
        0 <= pix_at(fx, tx, fy, ty) < WINDOW_VOLUME,
        pix_fx(pix_at(fx, tx, fy, ty)) == fx,
        pix_tx(pix_at(fx, tx, fy, ty)) == tx,
        pix_fy(pix_at(fx, tx, fy, ty)) == fy,
        pix_ty(pix_at(fx, tx, fy, ty)) == ty,
{
    let p = pix_at(fx, tx, fy, ty);
    let col = fx * 8 + tx;
    let row = fy * 8 + ty;
    assert(p == col + row * 512);
    assert(0 <= col < 512);
    assert(p % 512 == col && p / 512 == row) by {
        vstd::arithmetic::div_mod::lemma_fundamental_div_mod(p, 512);
        vstd::arithmetic::div_mod::lemma_div_multiples_vanish_fancy(row, col, 512);
        vstd::arithmetic::div_mod::lemma_mod_multiples_vanish(row, col, 512);
        vstd::arithmetic::div_mod::lemma_small_mod(col as nat, 512);
        vstd::arithmetic::mul::lemma_mul_is_commutative(row, 512);
    }
    assert(col / 8 == fx && col % 8 == tx) by {
        vstd::arithmetic::div_mod::lemma_div_multiples_vanish_fancy(fx, tx, 8);
        vstd::arithmetic::div_mod::lemma_mod_multiples_vanish(fx, tx, 8);
        vstd::arithmetic::div_mod::lemma_small_mod(tx as nat, 8);
        vstd::arithmetic::mul::lemma_mul_is_commutative(fx, 8);
    }
    assert(row / 8 == fy && row % 8 == ty) by {
        vstd::arithmetic::div_mod::lemma_div_multiples_vanish_fancy(fy, ty, 8);
        vstd::arithmetic::div_mod::lemma_mod_multiples_vanish(fy, ty, 8);
        vstd::arithmetic::div_mod::lemma_small_mod(ty as nat, 8);
        vstd::arithmetic::mul::lemma_mul_is_commutative(fy, 8);
    }
}

/// Every pixel of the window is made of its tile and its place in the tile.
pub proof fn lemma_pixel_compose(p: int)
    requires
        0 <= p < WINDOW_VOLUME,
    ensures
        0 <= pix_fx(p) < WORLD_WIDTH,
        0 <= pix_tx(p) < TILE_WIDTH,
        0 <= pix_fy(p) < WORLD_HEIGHT,
        0 <= pix_ty(p) < TILE_HEIGHT,
        p == pix_at(pix_fx(p), pix_tx(p), pix_fy(p), pix_ty(p)),
{
    let col = p % 512;
    let row = p / 512;
    vstd::arithmetic::div_mod::lemma_fundamental_div_mod(p, 512);
    vstd::arithmetic::div_mod::lemma_fundamental_div_mod(col, 8);
    vstd::arithmetic::div_mod::lemma_fundamental_div_mod(row, 8);
    assert(0 <= row < 512) by {
        vstd::arithmetic::div_mod::lemma_div_pos_is_pos(p, 512);
        vstd::arithmetic::div_mod::lemma_div_is_ordered(p, 262143, 512);
    }
    assert(row / 8 < 64) by {
        vstd::arithmetic::div_mod::lemma_div_is_ordered(row, 511, 8);
    }
    assert(col / 8 < 64) by {
        vstd::arithmetic::div_mod::lemma_div_is_ordered(col, 511, 8);
    }
    assert(0 <= row / 8) by {
        vstd::arithmetic::div_mod::lemma_div_pos_is_pos(row, 8);
    }
    assert(0 <= col / 8) by {
        vstd::arithmetic::div_mod::lemma_div_pos_is_pos(col, 8);
    }
}


// ---------------------------------------------------------------------------
// The tile layer
// ---------------------------------------------------------------------------

/// The world cell at column `fx` and row `fy`.
pub open spec fn cell(fx: int, fy: int) -> int {
    fx + fy * WORLD_WIDTH
}

/// Whether tile (`fx`, `fy`) lies in the playing field.
pub open spec fn in_field(o: GraphicsView, fx: int, fy: int) -> bool {
    0 <= fx < o.field.w && 0 <= fy < o.field.h
}

/// Whether pixel `p` belongs to a field tile that needs drawing.
pub open spec fn tile_drawn(o: GraphicsView, p: int) -> bool {
    in_field(o, pix_fx(p), pix_fy(p)) && o.dirty[cell(pix_fx(p), pix_fy(p))]
}

/// The colour that the tile picture gives pixel `p`; tile pictures start at
/// `tiles` in memory, 64 bytes each, row by row.
pub open spec fn tile_pix(o: GraphicsView, tiles: int, p: int) -> u8 {
    o.memory[o.world[cell(pix_fx(p), pix_fy(p))] * TILE_VOLUME + tiles + pix_ty(p) * TILE_WIDTH + pix_tx(p)]
}

/// Pixel `p` after the tile layer is drawn: the tile picture where the
/// tile needs drawing, else what the frame buffer held.
pub open spec fn tile_layer(o: GraphicsView, tiles: int, p: int) -> u8 {
    if tile_drawn(o, p) {
        tile_pix(o, tiles, p)
    } else {
        o.framebuff[p]
    }
}

/// Whether pixel `p` comes before the step (`fy`, `fx`, `ty`, `tx`) of the
/// tile drawing order: tile rows, tiles, pixel rows, pixels.
pub open spec fn pix_before(p: int, fy: int, fx: int, ty: int, tx: int) -> bool {
    ||| pix_fy(p) < fy
    ||| pix_fy(p) == fy && pix_fx(p) < fx
    ||| pix_fy(p) == fy && pix_fx(p) == fx && pix_ty(p) < ty
    ||| pix_fy(p) == fy && pix_fx(p) == fx && pix_ty(p) == ty && pix_tx(p) < tx
}

/// Pixel `p` once the tile layer is drawn up to step (`fy`, `fx`, `ty`, `tx`).
pub open spec fn tile_layer_upto(o: GraphicsView, tiles: int, p: int, fy: int, fx: int, ty: int, tx: int) -> u8 {
    if tile_drawn(o, p) && pix_before(p, fy, fx, ty, tx) {
        tile_pix(o, tiles, p)
    } else {
        o.framebuff[p]
    }
}

/// Whether cell `c` comes before tile (`fx`, `fy`) in the drawing order.
pub open spec fn cell_before(c: int, fy: int, fx: int) -> bool {
    c / (WORLD_WIDTH as int) < fy || (c / (WORLD_WIDTH as int) == fy && c % (WORLD_WIDTH as int) < fx)
}

/// The dirty flag of cell `c` once the tiles up to (`fx`, `fy`) are drawn:
/// drawn field tiles are clean.
pub open spec fn dirty_upto(o: GraphicsView, c: int, fy: int, fx: int) -> bool {
    if in_field(o, c % (WORLD_WIDTH as int), c / (WORLD_WIDTH as int)) && cell_before(c, fy, fx) {
        false
    } else {
        o.dirty[c]
    }
}

// ---------------------------------------------------------------------------
// The sprite layer
// ---------------------------------------------------------------------------

/// The window pixel that pixel (`swx`, `shy`) of sprite `s` lands on: the
/// sprite's position plus the offset, wrapping around the sprite view.
pub open spec fn sprite_target(o: GraphicsView, s: int, shy: int, swx: int) -> int {
    let loc = o.sprites[s].locWindow;
    (loc.col() + swx) % (o.sprite_view.w as int) + ((loc.row() + shy) % (o.sprite_view.h as int)) * WINDOW_WIDTH
}

/// The colour of pixel (`swx`, `shy`) of the picture of sprite `s`.
pub open spec fn sprite_color(o: GraphicsView, s: int, shy: int, swx: int) -> u8 {
    o.memory[o.sprites[s].data + swx + shy * SPRITE_WIDTH]
}

/// Whether pixel `k` (row `k / 16`, column `k % 16`) of sprite `s` paints
/// window pixel `p`: the sprite is shown and the pixel is not transparent.
pub open spec fn sprite_hit(o: GraphicsView, s: int, k: int, p: int) -> bool {
    &&& o.sprites[s].en
    &&& sprite_color(o, s, k / (SPRITE_WIDTH as int), k % (SPRITE_WIDTH as int)) != 0
    &&& sprite_target(o, s, k / (SPRITE_WIDTH as int), k % (SPRITE_WIDTH as int)) == p
}

/// The colour that the last of the first `k` pixels of sprite `s` to paint
/// window pixel `p` gives it, if any does.
pub open spec fn sprite_last(o: GraphicsView, s: int, k: int, p: int) -> Option<u8>
    decreases k,
{
    if k <= 0 {
        None
    } else if sprite_hit(o, s, k - 1, p) {
        Some(sprite_color(o, s, (k - 1) / (SPRITE_WIDTH as int), (k - 1) % (SPRITE_WIDTH as int)))
    } else {
        sprite_last(o, s, k - 1, p)
    }
}

/// The colour that the topmost of sprites `0..s` gives window pixel `p`, if
/// any paints it: a sprite drawn later covers one drawn earlier.
pub open spec fn layers_last(o: GraphicsView, s: int, p: int) -> Option<u8>
    decreases s,
{
    if s <= 0 {
        None
    } else {
        match sprite_last(o, s - 1, SPRITE_VOLUME as int, p) {
            Some(c) => Some(c),
            None => layers_last(o, s - 1, p),
        }
    }
}

/// Pixel `p` once sprites `0..s` and the first `k` pixels of sprite `s` are
/// drawn over the tile layer.
pub open spec fn frame_upto(o: GraphicsView, tiles: int, s: int, k: int, p: int) -> u8 {
    match sprite_last(o, s, k, p) {
        Some(c) => c,
        None => match layers_last(o, s, p) {
            Some(c) => c,
            None => tile_layer(o, tiles, p),
        },
    }
}

/// The frame buffer once tiles and all sprites are drawn.
pub open spec fn rasterized_frame(o: GraphicsView, tiles: int) -> Seq<u8> {
    Seq::new(
        WINDOW_VOLUME as nat,
        |p: int|
            match layers_last(o, SPRITECOUNT as int, p) {
                Some(c) => c,
                None => tile_layer(o, tiles, p),
            },
    )
}

/// The cell at offset (`i`, `j`) tiles from the tile under the corner of
/// sprite `s`, wrapping around the sprite field.
pub open spec fn mark_cell(o: GraphicsView, s: int, i: int, j: int) -> int {
    let loc = o.sprites[s].locWindow;
    (loc.col() / (TILE_WIDTH as int) + i) % (o.sprite_field.w as int)
        + ((loc.row() / (TILE_HEIGHT as int) + j) % (o.sprite_field.h as int)) * WORLD_WIDTH
}

/// Whether a shown sprite `s` marks cell `c` for drawing: the three by three
/// tiles that it may cover.
pub open spec fn sprite_marks(o: GraphicsView, s: int, c: int) -> bool {
    o.sprites[s].en && exists|i: int, j: int| 0 <= i < 3 && 0 <= j < 3 && c == #[trigger] mark_cell(o, s, i, j)
}

/// Whether one of sprites `0..s` marks cell `c`.
pub open spec fn marked_before(o: GraphicsView, s: int, c: int) -> bool
    decreases s,
{
    if s <= 0 {
        false
    } else {
        marked_before(o, s - 1, c) || sprite_marks(o, s - 1, c)
    }
}

/// The dirty flags once everything is drawn: field tiles are clean, and the
/// tiles under shown sprites need drawing next time.
pub open spec fn rasterized_dirty(o: GraphicsView) -> Seq<bool> {
    Seq::new(
        WORLD_VOLUME as nat,
        |c: int| marked_before(o, SPRITECOUNT as int, c) || (o.dirty[c] && !in_field(o, c % (WORLD_WIDTH as int), c / (WORLD_WIDTH as int))),
    )
}

/// What drawing a frame needs: the field inside the world, tile pictures
/// inside memory for every tile that will be drawn, and, where some sprite
/// is shown, the sprite field inside the world, the sprite view inside the
/// window, and the shown sprites with pictures inside memory.
pub open spec fn raster_ready(o: GraphicsView, tiles: int) -> bool {
    &&& o.wf()
    &&& o.field.w <= WORLD_WIDTH
    &&& o.field.h <= WORLD_HEIGHT
    &&& forall|c: int|
        0 <= c < WORLD_VOLUME && in_field(o, c % (WORLD_WIDTH as int), c / (WORLD_WIDTH as int)) && o.dirty[c]
            ==> (#[trigger] o.world[c]) * TILE_VOLUME + tiles + TILE_VOLUME <= MEMORYSIZE
    &&& forall|s: int|
        0 <= s < SPRITECOUNT && (#[trigger] o.sprites[s]).en ==> {
            &&& 0 < o.sprite_field.w <= WORLD_WIDTH
            &&& 0 < o.sprite_field.h <= WORLD_HEIGHT
            &&& 0 < o.sprite_view.w <= WINDOW_WIDTH
            &&& 0 < o.sprite_view.h <= WINDOW_HEIGHT
            &&& o.sprites[s].locWindow.w > 0
            &&& o.sprites[s].locWindow.h > 0
            &&& o.sprites[s].locWindow.col() + SPRITE_WIDTH <= usize::MAX
            &&& o.sprites[s].locWindow.row() + SPRITE_HEIGHT <= usize::MAX
            &&& o.sprites[s].data + SPRITE_VOLUME <= MEMORYSIZE
        }
}


// ---------------------------------------------------------------------------
// Lemmas for drawing a frame
// ---------------------------------------------------------------------------

/// A cell names its column and row.
pub proof fn lemma_cell_decompose(fx: int, fy: int)
    requires
        0 <= fx < WORLD_WIDTH,
        0 <= fy < WORLD_HEIGHT,
    ensures
        0 <= cell(fx, fy) < WORLD_VOLUME,
        cell(fx, fy) % (WORLD_WIDTH as int) == fx,
        cell(fx, fy) / (WORLD_WIDTH as int) == fy,
{
    vstd::arithmetic::div_mod::lemma_div_multiples_vanish_fancy(fy, fx, 64);
    vstd::arithmetic::div_mod::lemma_mod_multiples_vanish(fy, fx, 64);
    vstd::arithmetic::div_mod::lemma_small_mod(fx as nat, 64);
    vstd::arithmetic::mul::lemma_mul_is_commutative(fy, 64);
}

/// Every cell of the world is made of its column and row.
pub proof fn lemma_cell_compose(c: int)
    requires
        0 <= c < WORLD_VOLUME,
    ensures
        c == cell(c % (WORLD_WIDTH as int), c / (WORLD_WIDTH as int)),
        0 <= c % (WORLD_WIDTH as int) < WORLD_WIDTH,
        0 <= c / (WORLD_WIDTH as int) < WORLD_HEIGHT,
{
    vstd::arithmetic::div_mod::lemma_fundamental_div_mod(c, 64);
    vstd::arithmetic::div_mod::lemma_div_pos_is_pos(c, 64);
    vstd::arithmetic::div_mod::lemma_div_is_ordered(c, 4095, 64);
}

/// Pixel `shy * 16 + swx` of a sprite is at row `shy`, column `swx`.
pub proof fn lemma_sprite_index(shy: int, swx: int)
    requires
        0 <= shy < SPRITE_HEIGHT,
        0 <= swx < SPRITE_WIDTH,
    ensures
        (shy * SPRITE_WIDTH + swx) / (SPRITE_WIDTH as int) == shy,
        (shy * SPRITE_WIDTH + swx) % (SPRITE_WIDTH as int) == swx,
{
    vstd::arithmetic::div_mod::lemma_div_multiples_vanish_fancy(shy, swx, 16);
    vstd::arithmetic::div_mod::lemma_mod_multiples_vanish(shy, swx, 16);
    vstd::arithmetic::div_mod::lemma_small_mod(swx as nat, 16);
    vstd::arithmetic::mul::lemma_mul_is_commutative(shy, 16);
}

/// A hidden sprite paints nothing.
pub proof fn lemma_sprite_last_hidden(o: GraphicsView, s: int, k: int, p: int)
    requires
        !o.sprites[s].en,
    ensures
        sprite_last(o, s, k, p) is None,
    decreases k,
{
    if k > 0 {
        lemma_sprite_last_hidden(o, s, k - 1, p);
    }
}

/// The cells a shown sprite marks, one by one.
pub proof fn lemma_sprite_marks_enum(o: GraphicsView, s: int, c: int)
    ensures
        sprite_marks(o, s, c) == (o.sprites[s].en && (
            c == mark_cell(o, s, 0, 0) || c == mark_cell(o, s, 1, 0) || c == mark_cell(o, s, 2, 0)
            || c == mark_cell(o, s, 0, 1) || c == mark_cell(o, s, 1, 1) || c == mark_cell(o, s, 2, 1)
            || c == mark_cell(o, s, 0, 2) || c == mark_cell(o, s, 1, 2) || c == mark_cell(o, s, 2, 2))),
{
    if o.sprites[s].en && (
            c == mark_cell(o, s, 0, 0) || c == mark_cell(o, s, 1, 0) || c == mark_cell(o, s, 2, 0)
            || c == mark_cell(o, s, 0, 1) || c == mark_cell(o, s, 1, 1) || c == mark_cell(o, s, 2, 1)
            || c == mark_cell(o, s, 0, 2) || c == mark_cell(o, s, 1, 2) || c == mark_cell(o, s, 2, 2)) {
        if c == mark_cell(o, s, 0, 0) { assert(mark_cell(o, s, 0, 0) == c); }
        else if c == mark_cell(o, s, 1, 0) { assert(mark_cell(o, s, 1, 0) == c); }
        else if c == mark_cell(o, s, 2, 0) { assert(mark_cell(o, s, 2, 0) == c); }
        else if c == mark_cell(o, s, 0, 1) { assert(mark_cell(o, s, 0, 1) == c); }
        else if c == mark_cell(o, s, 1, 1) { assert(mark_cell(o, s, 1, 1) == c); }
        else if c == mark_cell(o, s, 2, 1) { assert(mark_cell(o, s, 2, 1) == c); }
        else if c == mark_cell(o, s, 0, 2) { assert(mark_cell(o, s, 0, 2) == c); }
        else if c == mark_cell(o, s, 1, 2) { assert(mark_cell(o, s, 1, 2) == c); }
        else { assert(mark_cell(o, s, 2, 2) == c); }
    }
}

/// Sprites paint the same with any frame buffer and dirty flags.
proof fn lemma_sprite_last_frame_free(o: GraphicsView, o1: GraphicsView, s: int, k: int, p: int)
    requires
        o1.sprites == o.sprites,
        o1.memory == o.memory,
        o1.sprite_view == o.sprite_view,
    ensures
        sprite_last(o1, s, k, p) == sprite_last(o, s, k, p),
    decreases k,
{
    if k > 0 {
        lemma_sprite_last_frame_free(o, o1, s, k - 1, p);
    }
}

/// The sprite layers are the same with any frame buffer and dirty flags.
proof fn lemma_layers_frame_free(o: GraphicsView, o1: GraphicsView, s: int, p: int)
    requires
        o1.sprites == o.sprites,
        o1.memory == o.memory,
        o1.sprite_view == o.sprite_view,
    ensures
        layers_last(o1, s, p) == layers_last(o, s, p),
    decreases s,
{
    if s > 0 {
        lemma_layers_frame_free(o, o1, s - 1, p);
        lemma_sprite_last_frame_free(o, o1, s - 1, SPRITE_VOLUME as int, p);
    }
}

/// Sprites mark the same cells with any frame buffer and dirty flags.
proof fn lemma_marks_frame_free(o: GraphicsView, o1: GraphicsView, s: int, c: int)
    requires
        o1.sprites == o.sprites,
        o1.sprite_field == o.sprite_field,
    ensures
        marked_before(o1, s, c) == marked_before(o, s, c),
    decreases s,
{
    if s > 0 {
        lemma_marks_frame_free(o, o1, s - 1, c);
        lemma_sprite_marks_enum(o, s - 1, c);
        lemma_sprite_marks_enum(o1, s - 1, c);
    }
}

/// Drawing a frame a second time with nothing changed in between leaves
/// the frame buffer and the dirty flags as the first drawing left them, and
/// is allowed, where every field cell that a shown sprite marks needed
/// drawing before the first time.
pub proof fn lemma_rasterize_twice(o: GraphicsView, tiles: int)
    requires
        raster_ready(o, tiles),
        forall|c: int|
            0 <= c < WORLD_VOLUME && in_field(o, c % (WORLD_WIDTH as int), c / (WORLD_WIDTH as int)) && marked_before(
                o,
                SPRITECOUNT as int,
                c,
            ) ==> #[trigger] o.dirty[c],
    ensures
        ({
            let o1 = GraphicsView { framebuff: rasterized_frame(o, tiles), dirty: rasterized_dirty(o), ..o };
            &&& raster_ready(o1, tiles)
            &&& rasterized_frame(o1, tiles) == o1.framebuff
            &&& rasterized_dirty(o1) == o1.dirty
        }),
{
    let o1 = GraphicsView { framebuff: rasterized_frame(o, tiles), dirty: rasterized_dirty(o), ..o };
    assert forall|c: int|
        0 <= c < WORLD_VOLUME && in_field(o1, c % (WORLD_WIDTH as int), c / (WORLD_WIDTH as int)) && o1.dirty[c] implies
        (#[trigger] o1.world[c]) * TILE_VOLUME + tiles + TILE_VOLUME <= MEMORYSIZE by {
        assert(o.dirty[c]);
    }
    assert forall|p: int| 0 <= p < WINDOW_VOLUME implies #[trigger] rasterized_frame(o1, tiles)[p] == o1.framebuff[p] by {
        lemma_layers_frame_free(o, o1, SPRITECOUNT as int, p);
        lemma_pixel_compose(p);
        let fx = pix_fx(p);
        let fy = pix_fy(p);
        lemma_cell_decompose(fx, fy);
        let c = cell(fx, fy);
        if tile_drawn(o1, p) {
            lemma_marks_frame_free(o, o1, SPRITECOUNT as int, c);
            assert(o1.dirty[c]);
            assert(marked_before(o, SPRITECOUNT as int, c));
            assert(o.dirty[c]);
            assert(tile_drawn(o, p));
        }
    }
    assert(rasterized_frame(o1, tiles) =~= o1.framebuff);
    assert forall|c: int| 0 <= c < WORLD_VOLUME implies #[trigger] rasterized_dirty(o1)[c] == o1.dirty[c] by {
        lemma_marks_frame_free(o, o1, SPRITECOUNT as int, c);
    }
    assert(rasterized_dirty(o1) =~= o1.dirty);
}

} // verus!
