use lib::gfx::{Dim, Graphics, Mvec, Sprite, BLK, SPRITECOUNT};
use lib::term_out::push_decimal;
use lib::util::Term;

fn fresh() -> Graphics {
    Graphics::new(Term { h: 25, w: 80 })
}

#[test]
fn dim_has_volume() {
    let d = Dim(8, 8);
    assert_eq!((d.width, d.height, d.volume), (8, 8, 64));
    let d = Dim(64, 64);
    assert_eq!(d.volume, 4096);
}

#[test]
fn mvec_reads_back_modulo_size() {
    let m = Mvec::new(30, 35, 9, 12);
    assert_eq!((m.x(), m.y()), (9, 12));
    let m = Mvec::new(30, 35, 31, 70);
    assert_eq!((m.x(), m.y()), (1, 0));
}

#[test]
fn mvec_shift_wraps_around() {
    let mut m = Mvec::new(30, 35, 0, 0);
    m.shift(2, 1);
    assert_eq!(m.x(), 29);
    m.shift(3, 1);
    assert_eq!(m.y(), 34);
    m.shift(0, 1);
    m.shift(1, 1);
    assert_eq!((m.x(), m.y()), (0, 0));
    m.shift(4, 5);
    assert_eq!((m.x(), m.y()), (0, 0));
}

#[test]
fn mvec_shift_back_restores_raw() {
    for dir in 0..5 {
        let m = Mvec::new(30, 35, 7, 8);
        let mut n = m;
        n.shift(dir, 3);
        let back = if dir == 4 { 4 } else { (dir + 2) % 4 };
        n.shift(back, 3);
        assert_eq!((n.x, n.y, n.w, n.h), (m.x, m.y, m.w, m.h));
    }
}

#[test]
fn mvec_equal_compares_tiles() {
    assert!(Mvec::new(30, 35, 1, 2).equal(&Mvec::new(30, 35, 31, 37)));
    assert!(!Mvec::new(30, 35, 1, 2).equal(&Mvec::new(30, 35, 2, 2)));
}

#[test]
fn mvec_set_seti_area_next() {
    let mut m = Mvec::new(30, 35, 0, 0);
    m.set(5, 6);
    assert_eq!((m.x(), m.y()), (5, 6));
    m._seti(-1, -2);
    assert_eq!((m.x(), m.y()), (29, 33));
    assert_eq!(m._area(), 1050);
    let n = m._next(0);
    assert_eq!((n.x(), n.y()), (0, 33));
    let n = m._next(1);
    assert_eq!((n.x(), n.y()), (29, 34));
}

#[test]
fn sprite_default_is_hidden_at_origin() {
    let s = Sprite::default();
    assert_eq!(s.data, 0);
    assert!(!s.en);
    assert_eq!((s.locWindow.x(), s.locWindow.y(), s.locWindow.w, s.locWindow.h), (0, 0, 512, 512));
}

#[test]
fn graphics_new_state() {
    let g = fresh();
    assert_eq!(g.sprites.len(), SPRITECOUNT);
    assert_eq!(g.memory.len(), 65536);
    assert!(g.world.iter().all(|t| *t == 1));
    assert_eq!(g.memPtr, 0);
    assert_eq!((g.spriteTileCenterAdj.x(), g.spriteTileCenterAdj.y()), (508, 508));
    assert_eq!((g.rasterView.w, g.rasterView.h), (0, 0));
}

#[test]
fn field_tiles_around_origin() {
    let g = fresh();
    let t = g.getFieldTiles(0, 0, |t| t);
    assert_eq!(t[0], (1, 0, 1, 0));
    assert_eq!(t[1], (1, 1, 0, 1));
    assert_eq!(t[2], (1, 2, -1, 0));
    assert_eq!(t[3], (1, 3, 0, -1));
}

#[test]
fn field_tiles_wrap_rows_and_world() {
    let mut g = fresh();
    assert_eq!(g.setFieldTile(63, 5, 7), 1);
    assert_eq!(g.setFieldTile(0, 63, 9), 1);
    let t = g.getFieldTiles(0, 5, |t| t);
    assert_eq!(t[2].0, 7);
    let t = g.getFieldTiles(0, 0, |t| t);
    assert_eq!(t[3].0, 9);
}

#[test]
fn set_field_tile_returns_old() {
    let mut g = fresh();
    assert_eq!(g.setFieldTile(3, 4, 7), 1);
    assert_eq!(g.setFieldTile(3, 4, 0), 7);
    let t = g.getFieldTiles(2, 4, |t| t);
    assert_eq!(t[0].0, 0);
}

#[test]
fn sprite_setters() {
    let mut g = fresh();
    g.setSpriteLocWindow(2, 10, 20);
    assert_eq!((g.sprites[2].locWindow.x(), g.sprites[2].locWindow.y()), (10, 20));
    g.shiftSprite(2, 0, 3);
    assert_eq!(g.sprites[2].locWindow.x(), 13);
    g.shiftSprite(2, 3, 25);
    assert_eq!(g.sprites[2].locWindow.y(), 507);
    g.setSpriteIdx(2, 512);
    assert_eq!(g.sprites[2].data, 512);
    assert_eq!(g.sprites[3].data, 0);
}

#[test]
fn field_size_sets_views() {
    let mut g = fresh();
    g.setFieldSize(28, 33);
    assert_eq!((g.field.w, g.field.h), (28, 33));
    assert_eq!((g.view.w, g.view.h), (224, 264));
    assert_eq!((g.spriteField.w, g.spriteField.h), (30, 35));
    assert_eq!((g.spriteView.w, g.spriteView.h), (240, 280));
    assert_eq!((g.spriteTileCenterAdj.x(), g.spriteTileCenterAdj.y()), (236, 276));
}

#[test]
fn center_raster_view_clamps() {
    let mut g = fresh();
    g.setFieldSize(28, 33);
    g.setSpriteLocWindow(0, 100, 50);
    g.centerRasterView(0);
    assert_eq!((g.rasterView.w, g.rasterView.h, g.rasterView.x, g.rasterView.y), (80, 25, 68, 46));
    g.setSpriteLocWindow(0, 0, 0);
    g.centerRasterView(0);
    assert_eq!((g.rasterView.x, g.rasterView.y), (0, 0));
    g.setSpriteLocWindow(0, 230, 270);
    g.centerRasterView(0);
    assert_eq!((g.rasterView.x, g.rasterView.y), (144, 239));
}

#[test]
fn centered_view_stays_inside() {
    let mut g = fresh();
    g.setFieldSize(28, 33);
    for x in (0..512).step_by(7) {
        for y in (0..512).step_by(11) {
            g.setSpriteLocWindow(0, x, y);
            g.centerRasterView(0);
            assert!(g.rasterView.x + g.rasterView.w <= g.view.w);
            assert!(g.rasterView.y + g.rasterView.h <= g.view.h);
        }
    }
}

#[test]
fn memory_initialised_with_colours() {
    let mut g = fresh();
    g.memorySetCharColorMap(&[(' ', 0), ('a', 5), ('a', 6)]);
    assert_eq!(g.initializeMemory(&["a a", " aa"]), 0);
    assert_eq!(&g.memory[0..6], &[6, 0, 6, 0, 6, 6]);
    assert_eq!(g.memPtr, 6);
    assert_eq!(g.initializeMemory(&["a"]), 6);
    assert_eq!(g.memPtr, 7);
}

#[test]
fn field_data_painted_by_rows() {
    let mut g = fresh();
    g.initializeFieldData(&[('.', 1), ('#', 3)], &["#.#", ".."]);
    assert_eq!(&g.world[0..4], &[3, 1, 3, 1]);
    assert_eq!(&g.world[64..67], &[1, 1, 1]);
    g.initializeFieldData(&[('.', 0), ('#', 3)], &["", "#."]);
    assert_eq!(&g.world[0..3], &[3, 1, 3]);
    assert_eq!(&g.world[64..67], &[3, 0, 1]);
}

/// The bytes that send the pixels `px` (row by row, `w` wide, `h` high) to
/// a terminal that showed nothing yet: only the pixel colours, with cursor
/// moves at each new row and colour changes only when the colour changes.
fn expected_bytes(px: &dyn Fn(usize, usize) -> u8, w: usize, h: usize) -> Vec<u8> {
    let mut out = String::from("\x1b[H\x1b[30m");
    let mut loc = (0, 0);
    let mut last = 0u8;
    for y in 0..h {
        for x in 0..w {
            let b = px(x, y);
            if loc != (x, y) {
                out += &format!("\x1b[{};{}H", y + 1, x + 1);
            }
            loc = (x + 1, y);
            if b == 0 {
                out.push(' ');
            } else if last == b {
                out.push(BLK);
            } else {
                last = b;
                out += &format!("\x1b[38;5;{}m{}", b, BLK);
            }
        }
    }
    out.into_bytes()
}

#[test]
fn rasterise_and_print_small_field() {
    let mut g = fresh();
    g.setFieldSize(1, 1);
    for k in 0..64 {
        g.memory[64 + k] = (k % 3) as u8;
    }
    g.memory[256] = 77;
    g.sprites[0].en = true;
    g.setSpriteIdx(0, 256);
    g.setSpriteLocWindow(0, 2, 3);
    g.rasterizeTilesSprites(0);
    for ty in 0..8 {
        for tx in 0..8 {
            let want = if (tx, ty) == (2, 3) { 77 } else { ((ty * 8 + tx) % 3) as u8 };
            assert_eq!(g.framebuff[tx + ty * 512], want);
        }
    }
    // the sprite's tiles need drawing again, drawn tiles outside it do not
    assert!(g.worldDirty[0] && g.worldDirty[1] && g.worldDirty[2 + 2 * 64]);
    assert!(g.worldDirty[5 + 5 * 64]);
    g.centerRasterView(0);
    assert_eq!((g.rasterView.x, g.rasterView.y, g.rasterView.w, g.rasterView.h), (0, 0, 8, 8));
    let out = g.fieldBytes();
    let want = expected_bytes(&|x, y| if (x, y) == (2, 3) { 77 } else { ((y * 8 + x) % 3) as u8 }, 8, 8);
    assert_eq!(out, want);
    // nothing changed: only the header
    g.rasterizeTilesSprites(0);
    assert_eq!(g.fieldBytes(), b"\x1b[H\x1b[30m".to_vec());
}

#[test]
fn clean_tiles_are_not_redrawn() {
    let mut g = fresh();
    g.setFieldSize(2, 1);
    g.rasterizeTilesSprites(0);
    assert!(!g.worldDirty[0] && !g.worldDirty[1]);
    g.memory[64] = 9;
    g.rasterizeTilesSprites(0);
    assert_eq!(g.framebuff[0], 0);
    g.worldDirty[0] = true;
    g.rasterizeTilesSprites(0);
    assert_eq!(g.framebuff[0], 9);
    assert_eq!(g.framebuff[8], 0);
}

#[test]
fn push_decimal_digits() {
    let mut v = Vec::new();
    push_decimal(&mut v, 305);
    assert_eq!(v, b"305".to_vec());
    push_decimal(&mut v, 0);
    assert_eq!(v, b"3050".to_vec());
}

#[test]
fn tile_pass_on_a_large_field_without_sprites() {
    let mut g = fresh();
    g.setFieldSize(63, 63);
    assert_eq!(g.spriteField.w, 65);
    g.memory[64] = 5;
    g.memory[127] = 6;
    g.rasterizeTilesSprites(0);
    assert_eq!(g.framebuff[0], 5);
    assert_eq!(g.framebuff[62 * 8 + 62 * 8 * 512], 5);
    assert_eq!(g.framebuff[62 * 8 + 7 + (62 * 8 + 7) * 512], 6);
    assert!(!g.worldDirty[62 + 62 * 64]);
    assert!(g.worldDirty[63 + 62 * 64]);
}

#[test]
fn drawing_twice_changes_nothing() {
    let mut g = fresh();
    g.setFieldSize(4, 4);
    for k in 0..64 {
        g.memory[64 + k] = (k % 5) as u8;
    }
    g.memory[256 + 17] = 9;
    g.sprites[3].en = true;
    g.setSpriteIdx(3, 256);
    g.setSpriteLocWindow(3, 5, 6);
    g.rasterizeTilesSprites(0);
    let frame = g.framebuff.clone();
    let dirty = g.worldDirty.clone();
    assert_eq!(frame[5 + 1 + (6 + 1) * 512], 9);
    g.rasterizeTilesSprites(0);
    assert_eq!(g.framebuff, frame);
    assert_eq!(g.worldDirty, dirty);
}
