use vstd::prelude::*;

use crate::gfx::{GraphicsView, WINDOW_HEIGHT, WINDOW_VOLUME, WINDOW_WIDTH};

verus! {

/// The decimal digits of `n`, as ASCII.
pub open spec fn decimal(n: nat) -> Seq<u8>
    decreases n,
{
    if n < 10 {
        seq![(48 + n) as u8]
    } else {
        decimal(n / 10).push((48 + n % 10) as u8)
    }
}

/// Appends the decimal digits of `n` to `buf`.
pub fn push_decimal(buf: &mut Vec<u8>, n: usize)
    ensures
        final(buf)@ == old(buf)@ + decimal(n as nat),
    decreases n,
{
    if n >= 10 {
        push_decimal(buf, n / 10);
    }
    buf.push((48 + n % 10) as u8);
    assert(final(buf)@ =~= old(buf)@ + decimal(n as nat));
}

/// The escape sequence that moves the terminal cursor to `row`, `col`
/// (counted from 1): ESC `[` row `;` col `H`.
pub open spec fn cursor_to(row: nat, col: nat) -> Seq<u8> {
    seq![0x1bu8, 0x5bu8] + decimal(row) + seq![0x3bu8] + decimal(col) + seq![0x48u8]
}

/// The escape sequence that sets the foreground to colour `c` of the 256:
/// ESC `[38;5;` c `m`.
pub open spec fn set_color(c: u8) -> Seq<u8> {
    seq![0x1bu8, 0x5bu8, 0x33u8, 0x38u8, 0x3bu8, 0x35u8, 0x3bu8] + decimal(c as nat) + seq![0x6du8]
}

/// The UTF-8 bytes of the pixel glyph `▉`.
pub open spec fn blk_bytes() -> Seq<u8> {
    seq![0xe2u8, 0x96u8, 0x89u8]
}

/// What goes before the first pixel: cursor home, black foreground.
pub open spec fn header_bytes() -> Seq<u8> {
    seq![0x1bu8, 0x5bu8, 0x48u8, 0x1bu8, 0x5bu8, 0x33u8, 0x30u8, 0x6du8]
}

/// The state of drawing the frame onto the terminal: the bytes so far,
/// the frame the terminal shows, where the cursor stands, and the colour it
/// draws in.
pub struct PrintState {
    pub out: Seq<u8>,
    pub last: Seq<u8>,
    pub locx: int,
    pub locy: int,
    pub color: u8,
}

/// The frame-buffer pixel shown at column `x`, row `y` of the terminal.
pub open spec fn shown_pixel(o: GraphicsView, x: int, y: int) -> u8 {
    o.framebuff[o.raster_view.x + x + (o.raster_view.y + y) * WINDOW_WIDTH]
}

/// Drawing the terminal cell at column `x`, row `y`: if the terminal shows
/// it already, nothing; else remember it, move the cursor there unless it
/// is there, and draw a blank for colour 0, else the glyph, switching the
/// colour first when it differs.
pub open spec fn cell_step(o: GraphicsView, st: PrintState, x: int, y: int) -> PrintState {
    let b = shown_pixel(o, x, y);
    let idx = x + y * WINDOW_WIDTH;
    if b == st.last[idx] {
        st
    } else {
        let out1 = if st.locx != x || st.locy != y {
            st.out + cursor_to((y + 1) as nat, (x + 1) as nat)
        } else {
            st.out
        };
        let (out2, color2) = if b == 0 {
            (out1 + seq![0x20u8], st.color)
        } else if st.color == b {
            (out1 + blk_bytes(), st.color)
        } else {
            (out1 + set_color(b) + blk_bytes(), b)
        };
        PrintState { out: out2, last: st.last.update(idx, b), locx: x + 1, locy: y, color: color2 }
    }
}

/// The state after the first `x` cells of row `y`.
pub open spec fn row_state(o: GraphicsView, st: PrintState, y: int, x: int) -> PrintState
    decreases x,
{
    if x <= 0 {
        st
    } else {
        cell_step(o, row_state(o, st, y, x - 1), x - 1, y)
    }
}

/// The state after the first `y` rows of the raster view.
pub open spec fn rows_state(o: GraphicsView, y: int) -> PrintState
    decreases y,
{
    if y <= 0 {
        PrintState { out: header_bytes(), last: o.last, locx: 0, locy: 0, color: 0 }
    } else {
        row_state(o, rows_state(o, y - 1), y - 1, o.raster_view.w as int)
    }
}

/// Drawing the first `x` cells of row `y` leaves the terminal showing their
/// pixels, and every other cell as it was.
proof fn lemma_row_last(o: GraphicsView, st: PrintState, y: int, x: int)
    requires
        0 <= x <= o.raster_view.w,
        o.raster_view.w <= WINDOW_WIDTH,
        0 <= y < WINDOW_HEIGHT,
        st.last.len() == WINDOW_VOLUME,
    ensures
        row_state(o, st, y, x).last.len() == st.last.len(),
        forall|i: int| 0 <= i < x ==> #[trigger] row_state(o, st, y, x).last[i + y * WINDOW_WIDTH] == shown_pixel(o, i, y),
        forall|k: int|
            0 <= k < WINDOW_VOLUME && (k < y * WINDOW_WIDTH || k >= y * WINDOW_WIDTH + x) ==> #[trigger] row_state(o, st, y, x).last[k]
                == st.last[k],
    decreases x,
{
    if x > 0 {
        lemma_row_last(o, st, y, x - 1);
    }
}

/// After the first `y` rows the terminal shows the pixels of those rows of
/// the raster view.
proof fn lemma_rows_last(o: GraphicsView, y: int)
    requires
        0 <= y <= WINDOW_HEIGHT,
        o.raster_view.w <= WINDOW_WIDTH,
        o.last.len() == WINDOW_VOLUME,
    ensures
        rows_state(o, y).last.len() == o.last.len(),
        forall|yy: int, i: int|
            0 <= yy < y && 0 <= i < o.raster_view.w ==> #[trigger] rows_state(o, y).last[i + yy * WINDOW_WIDTH] == shown_pixel(o, i, yy),
    decreases y,
{
    if y > 0 {
        lemma_rows_last(o, y - 1);
        let st = rows_state(o, y - 1);
        lemma_row_last(o, st, y - 1, o.raster_view.w as int);
        assert forall|yy: int, i: int|
            0 <= yy < y && 0 <= i < o.raster_view.w implies #[trigger] rows_state(o, y).last[i + yy * WINDOW_WIDTH] == shown_pixel(o, i, yy) by {
            if yy < y - 1 {
                assert(i + yy * WINDOW_WIDTH < (y - 1) * WINDOW_WIDTH);
                assert(rows_state(o, y).last[i + yy * WINDOW_WIDTH] == st.last[i + yy * WINDOW_WIDTH]);
            }
        }
    }
}

/// A row whose cells the terminal already shows draws nothing.
proof fn lemma_row_settled(o: GraphicsView, st: PrintState, y: int, x: int)
    requires
        0 <= x <= o.raster_view.w,
        forall|i: int| 0 <= i < x ==> #[trigger] st.last[i + y * WINDOW_WIDTH] == shown_pixel(o, i, y),
    ensures
        row_state(o, st, y, x) == st,
    decreases x,
{
    if x > 0 {
        lemma_row_settled(o, st, y, x - 1);
        assert(st.last[(x - 1) + y * WINDOW_WIDTH] == shown_pixel(o, x - 1, y));
    }
}

/// Rows that the terminal already shows draw nothing but the header.
proof fn lemma_rows_settled(o: GraphicsView, y: int)
    requires
        0 <= y <= o.raster_view.h,
        forall|yy: int, i: int| 0 <= yy < y && 0 <= i < o.raster_view.w ==> #[trigger] o.last[i + yy * WINDOW_WIDTH] == shown_pixel(o, i, yy),
    ensures
        rows_state(o, y) == (PrintState { out: header_bytes(), last: o.last, locx: 0, locy: 0, color: 0 }),
    decreases y,
{
    if y > 0 {
        lemma_rows_settled(o, y - 1);
        let st = rows_state(o, y - 1);
        assert forall|i: int| 0 <= i < o.raster_view.w implies #[trigger] st.last[i + (y - 1) * WINDOW_WIDTH] == shown_pixel(o, i, y - 1) by {
            assert(o.last[i + (y - 1) * WINDOW_WIDTH] == shown_pixel(o, i, y - 1));
        }
        lemma_row_settled(o, st, y - 1, o.raster_view.w as int);
    }
}

/// Bringing the terminal up to date twice with the same frame: the second
/// time only the header goes out, and what the terminal shows stays.
pub proof fn lemma_redraw_sends_header(o: GraphicsView)
    requires
        o.wf(),
        o.raster_view.w <= WINDOW_WIDTH,
        o.raster_view.h <= WINDOW_HEIGHT,
    ensures
        ({
            let h = o.raster_view.h as int;
            let st = rows_state(o, h);
            let o2 = GraphicsView { last: st.last, ..o };
            rows_state(o2, h) == (PrintState { out: header_bytes(), last: st.last, locx: 0, locy: 0, color: 0 })
        }),
{
    let h = o.raster_view.h as int;
    let st = rows_state(o, h);
    let o2 = GraphicsView { last: st.last, ..o };
    lemma_rows_last(o, h);
    assert forall|yy: int, i: int| 0 <= yy < h && 0 <= i < o2.raster_view.w implies #[trigger] o2.last[i + yy * WINDOW_WIDTH] == shown_pixel(o2, i, yy) by {
        assert(st.last[i + yy * WINDOW_WIDTH] == shown_pixel(o, i, yy));
    }
    lemma_rows_settled(o2, h);
}

/// Every changed cell is drawn in its own place: the bytes for a cell at
/// column `x`, row `y` whose pixel differs from what the terminal shows are
/// a cursor move to row `y + 1`, column `x + 1` (left out only when the
/// cursor already stands there), then a blank for colour 0, the glyph in the
/// current colour, or a colour change and the glyph; after it the cursor
/// stands one column to the right and the terminal shows the pixel.  A cell
/// the terminal already shows sends nothing.
pub proof fn lemma_cell_drawn_in_place(o: GraphicsView, st: PrintState, x: int, y: int)
    requires
        0 <= x,
        0 <= y,
        0 <= x + y * WINDOW_WIDTH < st.last.len(),
    ensures
        ({
            let b = shown_pixel(o, x, y);
            let nx = cell_step(o, st, x, y);
            let moved = if st.locx == x && st.locy == y {
                Seq::<u8>::empty()
            } else {
                seq![0x1bu8, 0x5bu8] + decimal((y + 1) as nat) + seq![0x3bu8] + decimal((x + 1) as nat) + seq![0x48u8]
            };
            &&& b == st.last[x + y * WINDOW_WIDTH] ==> nx == st
            &&& b != st.last[x + y * WINDOW_WIDTH] ==> {
                &&& b == 0 ==> nx.out == st.out + moved + seq![0x20u8]
                &&& b != 0 && b == st.color ==> nx.out == st.out + moved + seq![0xe2u8, 0x96u8, 0x89u8]
                &&& b != 0 && b != st.color ==> nx.out == st.out + moved + seq![0x1bu8, 0x5bu8, 0x33u8, 0x38u8, 0x3bu8, 0x35u8, 0x3bu8]
                    + decimal(b as nat) + seq![0x6du8, 0xe2u8, 0x96u8, 0x89u8]
                &&& nx.locx == x + 1
                &&& nx.locy == y
                &&& nx.last[x + y * WINDOW_WIDTH] == b
                &&& nx.last.len() == st.last.len()
            }
        }),
{
    let b = shown_pixel(o, x, y);
    let moved = if st.locx == x && st.locy == y {
        Seq::<u8>::empty()
    } else {
        seq![0x1bu8, 0x5bu8] + decimal((y + 1) as nat) + seq![0x3bu8] + decimal((x + 1) as nat) + seq![0x48u8]
    };
    if b != st.last[x + y * WINDOW_WIDTH] {
        let out1 = if st.locx != x || st.locy != y { st.out + cursor_to((y + 1) as nat, (x + 1) as nat) } else { st.out };
        assert(out1 =~= st.out + moved);
        assert(out1 + set_color(b) + blk_bytes() =~= st.out + moved + seq![0x1bu8, 0x5bu8, 0x33u8, 0x38u8, 0x3bu8, 0x35u8, 0x3bu8]
            + decimal(b as nat) + seq![0x6du8, 0xe2u8, 0x96u8, 0x89u8]);
    }
}

} // verus!
