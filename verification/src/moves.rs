use vstd::prelude::*;
use vstd::wrapping::{isize_specs, usize_specs};

use crate::gfx::{
    mvec_shifted, neighbor_index, Graphics, GraphicsView, Mvec, WORLD_HEIGHT, WORLD_VOLUME,
    WORLD_WIDTH,
};
use crate::util::xorshift16;

verus! {

// ---------------------------------------------------------------------------
// Directions and distances
// ---------------------------------------------------------------------------

/// The opposite direction: right and left, down and up swap; 4 (standing
/// still) stays.
pub open spec fn opposite_dir(dir: usize) -> usize {
    if dir == 4 {
        4
    } else {
        ((dir + 2) % 4) as usize
    }
}

/// Turning around twice faces the first way again, and a moving direction
/// is never its own opposite.
pub proof fn lemma_opposite_involution(dir: usize)
    requires
        dir <= 4,
    ensures
        opposite_dir(opposite_dir(dir)) == dir,
        dir < 4 ==> opposite_dir(dir) != dir && opposite_dir(dir) < 4,
{
}

/// A step back the opposite way undoes a step: moving `mag` in `dir` and
/// then `mag` in the opposite direction gives back the same position, raw
/// coordinates and all.
pub proof fn lemma_shift_back(m: Mvec, dir: usize, mag: usize)
    requires
        dir <= 4,
    ensures
        mvec_shifted(mvec_shifted(m, dir, mag), opposite_dir(dir), mag) == m,
{
}

/// The direction opposite to `dir`.
pub fn opposite(dir: usize) -> (r: usize)
    ensures
        r == opposite_dir(dir),
{
    if dir == 4 {
        4
    } else {
        let s: usize = dir.wrapping_add(2);
        assert(s & 3 == s % 4) by (bit_vector);
        proof {
            if usize::BITS == 64 {
                assert(usize::MAX == 0xffff_ffff_ffff_ffff);
            } else {
                assert(usize::MAX == 0xffff_ffff);
            }
            assert(s % 4 == (dir + 2) % 4);
        }
        s & 3
    }
}

/// The square of the difference of `a` and `b` (the latter read as a signed
/// number), in machine arithmetic: wrapping, and read back as unsigned.
pub open spec fn wrapped_square_diff(a: isize, b: usize) -> usize {
    let t = isize_specs::wrapping_sub(a, b as isize);
    isize_specs::wrapping_mul(t, t) as usize
}

/// The square of the difference of `a` and `b` (see `wrapped_square_diff`);
/// the true square where it fits.
pub fn square_diff(a: isize, b: usize) -> (r: usize)
    ensures
        r == wrapped_square_diff(a, b),
        isize::MIN <= a - (b as isize) <= isize::MAX && (a - (b as isize)) * (a - (b as isize)) <= isize::MAX ==> r == (a
            - (b as isize)) * (a - (b as isize)),
{
    let t = a.wrapping_sub(b as isize);
    proof {
        let d: int = a - (b as isize);
        if isize::MIN <= d <= isize::MAX && d * d <= isize::MAX {
            assert(t == d);
            assert(0 <= d * d) by (nonlinear_arith);
            lemma_crop_small(d * d);
        }
    }
    t.wrapping_mul(t) as usize
}

/// Cropping a number that fits into a signed machine integer leaves it.
proof fn lemma_crop_small(v: int)
    requires
        0 <= v <= isize::MAX,
    ensures
        isize_specs::signed_crop(v) == v,
{
    if isize::BITS == 64 {
        assert(isize::MAX == 0x7fff_ffff_ffff_ffff);
    } else {
        assert(isize::MAX == 0x7fff_ffff);
    }
    vstd::arithmetic::div_mod::lemma_small_mod(v as nat, (isize::MAX + 1) as nat * 2);
}

/// The squared distance from (`x`, `y`) to the raw coordinates of `m`.
pub open spec fn sq_dist(x: int, y: int, m: Mvec) -> int {
    (x - (m.x as isize)) * (x - (m.x as isize)) + (y - (m.y as isize)) * (y - (m.y as isize))
}

/// Whether the squared distance from (`x`, `y`) to `m` can be computed
/// without wrapping.
pub open spec fn sq_dist_fits(x: int, y: int, m: Mvec) -> bool {
    &&& isize::MIN <= x - (m.x as isize) <= isize::MAX
    &&& isize::MIN <= y - (m.y as isize) <= isize::MAX
    &&& (x - (m.x as isize)) * (x - (m.x as isize)) <= isize::MAX
    &&& (y - (m.y as isize)) * (y - (m.y as isize)) <= isize::MAX
    &&& sq_dist(x, y, m) <= usize::MAX
}

/// The squared distance from (`x`, `y`) to the raw coordinates of `m`, in
/// machine arithmetic.
pub open spec fn wrapped_dist(x: isize, y: isize, m: Mvec) -> usize {
    usize_specs::wrapping_add(wrapped_square_diff(x, m.x), wrapped_square_diff(y, m.y))
}

/// The squared distance from (`x`, `y`) to the raw coordinates of `mloc`
/// (see `wrapped_dist`); the true one where it fits.
pub fn dist(x: isize, y: isize, mloc: &Mvec) -> (r: usize)
    ensures
        r == wrapped_dist(x, y, *mloc),
        sq_dist_fits(x as int, y as int, *mloc) ==> r == sq_dist(x as int, y as int, *mloc),
{
    square_diff(x, mloc.x).wrapping_add(square_diff(y, mloc.y))
}

// ---------------------------------------------------------------------------
// Reading the maze around a position
// ---------------------------------------------------------------------------

/// The world can be read around `loc`: its size is positive, its row lies in
/// the world and its column leaves room for the neighbour arithmetic.
pub open spec fn readable_at(loc: Mvec) -> bool {
    &&& loc.w > 0
    &&& loc.h > 0
    &&& loc.row() < WORLD_HEIGHT
    &&& loc.col() + WORLD_VOLUME <= usize::MAX
    &&& loc.col() + 1 <= isize::MAX
}

/// The tile next to `loc` in direction `d`.
pub open spec fn tile_toward(o: GraphicsView, loc: Mvec, d: int) -> u8 {
    o.world[neighbor_index(loc.col(), loc.row(), d)]
}

/// Whether the runner may enter the tile next to `loc` in direction `d`:
/// only empty, pill and power pill tiles (below 3) are open.
pub open spec fn open_toward(o: GraphicsView, loc: Mvec, d: int) -> bool {
    tile_toward(o, loc, d) < 3
}

/// Whether the runner may walk on tile `t`: empty, pill or power pill.
fn walkable(t: u8) -> (b: bool)
    ensures
        b == (t < 3),
{
    t < 3
}

/// The direction the runner takes at `loc`: standing, it starts toward
/// `bias` if that is open, else keeps standing; moving, it turns toward
/// `bias` if that is open, else keeps going if it can, else stops (4).
pub open spec fn next_dir(o: GraphicsView, loc: Mvec, dir: usize, bias: usize) -> usize {
    if dir == 4 {
        if bias != 4 && open_toward(o, loc, bias as int) { bias } else { 4 }
    } else if bias != 4 && open_toward(o, loc, bias as int) {
        bias
    } else if open_toward(o, loc, dir as int) {
        dir
    } else {
        4
    }
}

/// How the runner picks its way at `loc`: where the wanted direction leads
/// onto an open tile (empty, pill or power pill: below 3) it takes it,
/// standing or moving, whether or not the way ahead is open; otherwise a
/// moving runner keeps its direction while that is open; otherwise it
/// stands.  Whatever it picks is standing (4) or a way onto an open tile.
pub proof fn lemma_runner_turns(o: GraphicsView, loc: Mvec, dir: usize, bias: usize)
    requires
        dir <= 4,
        bias <= 4,
    ensures
        bias < 4 && o.world[neighbor_index(loc.col(), loc.row(), bias as int)] < 3 ==> next_dir(o, loc, dir, bias) == bias,
        dir < 4 && !(bias < 4 && o.world[neighbor_index(loc.col(), loc.row(), bias as int)] < 3)
            && o.world[neighbor_index(loc.col(), loc.row(), dir as int)] < 3 ==> next_dir(o, loc, dir, bias) == dir,
        next_dir(o, loc, dir, bias) == 4 || o.world[neighbor_index(loc.col(), loc.row(), next_dir(o, loc, dir, bias) as int)] < 3,
        next_dir(o, loc, dir, bias) == 4 || next_dir(o, loc, dir, bias) == bias || next_dir(o, loc, dir, bias) == dir,
        dir == 4 ==> next_dir(o, loc, dir, bias) == 4 || next_dir(o, loc, dir, bias) == bias,
{
}

/// The runner's next direction at `loc`, moving in `dir` and wanting `bias`.
pub fn nextdir(vid: &mut Graphics, loc: &Mvec, dir: usize, bias: usize) -> (r: usize)
    requires
        old(vid)@.wf(),
        readable_at(*loc),
        dir <= 4,
        bias <= 4,
    ensures
        final(vid)@ == old(vid)@,
        r == next_dir(old(vid)@, *loc, dir, bias),
{
    let validDirs = vid.getFieldTiles(loc.x(), loc.y(), walkable);
    if dir == 4 {
        // maybe resume movement
        if bias != 4 && validDirs[bias].0 {
            bias
        } else {
            4
        }
    } else {
        if bias != 4 && validDirs[bias].0 {
            // change direction while moving
            bias
        } else {
            // continue moving or stop
            if validDirs[dir].0 {
                dir
            } else {
                4
            }
        }
    }
}


// ---------------------------------------------------------------------------
// Ranking four scored directions
// ---------------------------------------------------------------------------

/// Direction `j` comes before direction `i` when ordered by score, ties by
/// direction number.
pub open spec fn ranks_below(sc: Seq<int>, j: int, i: int) -> bool {
    sc[j] < sc[i] || (sc[j] == sc[i] && j < i)
}

/// 1 if `b` holds, else 0.
pub open spec fn ind(b: bool) -> int {
    if b {
        1
    } else {
        0
    }
}

/// The place of direction `i` among the four when ordered by score, ties
/// by direction number: how many come before it.
pub open spec fn rank4(sc: Seq<int>, i: int) -> int {
    ind(ranks_below(sc, 0, i)) + ind(ranks_below(sc, 1, i)) + ind(ranks_below(sc, 2, i)) + ind(ranks_below(sc, 3, i))
}

/// The highest of four scores.
pub open spec fn max4(sc: Seq<int>) -> int {
    let a = if sc[0] >= sc[1] { sc[0] } else { sc[1] };
    let b = if sc[2] >= sc[3] { sc[2] } else { sc[3] };
    if a >= b { a } else { b }
}

/// The lowest of four scores.
pub open spec fn min4(sc: Seq<int>) -> int {
    let a = if sc[0] <= sc[1] { sc[0] } else { sc[1] };
    let b = if sc[2] <= sc[3] { sc[2] } else { sc[3] };
    if a <= b { a } else { b }
}

/// How many of four scores equal `v`, at most 3.
pub open spec fn ties3(sc: Seq<int>, v: int) -> int {
    let n = ind(sc[0] == v) + ind(sc[1] == v) + ind(sc[2] == v) + ind(sc[3] == v);
    if n > 3 { 3 } else { n }
}

/// The places of four directions are 0 to 3, one each, in the order of
/// `ranks_below`.
pub proof fn lemma_rank4(sc: Seq<int>)
    requires
        sc.len() == 4,
    ensures
        forall|i: int| 0 <= i < 4 ==> 0 <= #[trigger] rank4(sc, i) < 4,
        forall|i: int, j: int| 0 <= i < 4 && 0 <= j < 4 && i != j ==> rank4(sc, i) != rank4(sc, j),
        forall|i: int, j: int| 0 <= i < 4 && 0 <= j < 4 ==> (rank4(sc, i) < rank4(sc, j) <==> ranks_below(sc, i, j)),
{
    assert(rank4(sc, 0) < 4 && rank4(sc, 1) < 4 && rank4(sc, 2) < 4 && rank4(sc, 3) < 4);
}

/// The scores of four scored directions.
pub open spec fn scores_i32(v: [(i32, usize); 4]) -> Seq<int> {
    seq![v[0].0 as int, v[1].0 as int, v[2].0 as int, v[3].0 as int]
}

/// The scores of four scored directions.
pub open spec fn scores_usize(v: [(usize, usize); 4]) -> Seq<int> {
    seq![v[0].0 as int, v[1].0 as int, v[2].0 as int, v[3].0 as int]
}

/// Sorts four directions, direction `i` at place `i`, by score, ties by
/// direction: each goes to its place (`rank4`).
fn sort_dirs_i32(v: [(i32, usize); 4]) -> (w: [(i32, usize); 4])
    requires
        forall|i: int| 0 <= i < 4 ==> #[trigger] v[i].1 == i,
    ensures
        forall|i: int| 0 <= i < 4 ==> w[rank4(scores_i32(v), i)] == #[trigger] v[i],
        forall|q: int| 0 <= q < 4 ==> #[trigger] w[q].1 < 4 && rank4(scores_i32(v), w[q].1 as int) == q,
{
    proof {
        lemma_rank4(scores_i32(v));
    }
    let mut w = v;
    let mut i: usize = 0;
    while i < 4
        invariant
            i <= 4,
            forall|k: int| 0 <= k < 4 ==> #[trigger] v[k].1 == k,
            forall|k: int| 0 <= k < 4 ==> 0 <= #[trigger] rank4(scores_i32(v), k) < 4,
            forall|k: int, j: int| 0 <= k < 4 && 0 <= j < 4 && k != j ==> rank4(scores_i32(v), k) != rank4(scores_i32(v), j),
            forall|k: int| 0 <= k < i ==> w[rank4(scores_i32(v), k)] == #[trigger] v[k],
        decreases 4 - i,
    {
        let mut r: usize = 0;
        let mut j: usize = 0;
        while j < 4
            invariant
                i < 4,
                j <= 4,
                r <= j,
                r == (if j > 0 { ind(ranks_below(scores_i32(v), 0, i as int)) } else { 0 })
                    + (if j > 1 { ind(ranks_below(scores_i32(v), 1, i as int)) } else { 0 })
                    + (if j > 2 { ind(ranks_below(scores_i32(v), 2, i as int)) } else { 0 })
                    + (if j > 3 { ind(ranks_below(scores_i32(v), 3, i as int)) } else { 0 }),
            decreases 4 - j,
        {
            if v[j].0 < v[i].0 || (v[j].0 == v[i].0 && j < i) {
                r += 1;
            }
            j += 1;
        }
        w[r] = v[i];
        i += 1;
    }
    assert forall|q: int| 0 <= q < 4 implies #[trigger] w[q].1 < 4 && rank4(scores_i32(v), w[q].1 as int) == q by {
        if rank4(scores_i32(v), 0) == q {
            assert(w[q] == v[0]);
        } else if rank4(scores_i32(v), 1) == q {
            assert(w[q] == v[1]);
        } else if rank4(scores_i32(v), 2) == q {
            assert(w[q] == v[2]);
        } else {
            assert(rank4(scores_i32(v), 3) == q);
            assert(w[q] == v[3]);
        }
    }
    w
}

/// Sorts four directions, direction `i` at place `i`, by score, ties by
/// direction: each goes to its place (`rank4`).
pub(crate) fn sort_dirs_usize(v: [(usize, usize); 4]) -> (w: [(usize, usize); 4])
    requires
        forall|i: int| 0 <= i < 4 ==> #[trigger] v[i].1 == i,
    ensures
        forall|i: int| 0 <= i < 4 ==> w[rank4(scores_usize(v), i)] == #[trigger] v[i],
        forall|q: int| 0 <= q < 4 ==> #[trigger] w[q].1 < 4 && rank4(scores_usize(v), w[q].1 as int) == q,
{
    proof {
        lemma_rank4(scores_usize(v));
    }
    let mut w = v;
    let mut i: usize = 0;
    while i < 4
        invariant
            i <= 4,
            forall|k: int| 0 <= k < 4 ==> #[trigger] v[k].1 == k,
            forall|k: int| 0 <= k < 4 ==> 0 <= #[trigger] rank4(scores_usize(v), k) < 4,
            forall|k: int, j: int| 0 <= k < 4 && 0 <= j < 4 && k != j ==> rank4(scores_usize(v), k) != rank4(scores_usize(v), j),
            forall|k: int| 0 <= k < i ==> w[rank4(scores_usize(v), k)] == #[trigger] v[k],
        decreases 4 - i,
    {
        let mut r: usize = 0;
        let mut j: usize = 0;
        while j < 4
            invariant
                i < 4,
                j <= 4,
                r <= j,
                r == (if j > 0 { ind(ranks_below(scores_usize(v), 0, i as int)) } else { 0 })
                    + (if j > 1 { ind(ranks_below(scores_usize(v), 1, i as int)) } else { 0 })
                    + (if j > 2 { ind(ranks_below(scores_usize(v), 2, i as int)) } else { 0 })
                    + (if j > 3 { ind(ranks_below(scores_usize(v), 3, i as int)) } else { 0 }),
            decreases 4 - j,
        {
            if v[j].0 < v[i].0 || (v[j].0 == v[i].0 && j < i) {
                r += 1;
            }
            j += 1;
        }
        w[r] = v[i];
        i += 1;
    }
    assert forall|q: int| 0 <= q < 4 implies #[trigger] w[q].1 < 4 && rank4(scores_usize(v), w[q].1 as int) == q by {
        if rank4(scores_usize(v), 0) == q {
            assert(w[q] == v[0]);
        } else if rank4(scores_usize(v), 1) == q {
            assert(w[q] == v[1]);
        } else if rank4(scores_usize(v), 2) == q {
            assert(w[q] == v[2]);
        } else {
            assert(rank4(scores_usize(v), 3) == q);
            assert(w[q] == v[3]);
        }
    }
    w
}


/// Which of the three top-ranked directions are tied with the best: 3 when
/// the top three tie, 2 when only the top two do, else 1.
pub proof fn lemma_top_ties(sc: Seq<int>, a: int, b: int, c: int)
    requires
        sc.len() == 4,
        0 <= a < 4,
        0 <= b < 4,
        0 <= c < 4,
        rank4(sc, a) == 3,
        rank4(sc, b) == 2,
        rank4(sc, c) == 1,
    ensures
        (if sc[a] == sc[b] { if sc[b] == sc[c] { 3int } else { 2 } } else { 1 }) == ties3(sc, max4(sc)),
{
    lemma_rank4(sc);
}

/// Which of the three bottom-ranked directions are tied with the lowest: 3
/// when the bottom three tie, 2 when only the bottom two do, else 1.
pub proof fn lemma_bottom_ties(sc: Seq<int>, a: int, b: int, c: int)
    requires
        sc.len() == 4,
        0 <= a < 4,
        0 <= b < 4,
        0 <= c < 4,
        rank4(sc, a) == 0,
        rank4(sc, b) == 1,
        rank4(sc, c) == 2,
    ensures
        (if sc[a] == sc[b] { if sc[b] == sc[c] { 3int } else { 2 } } else { 1 }) == ties3(sc, min4(sc)),
{
    lemma_rank4(sc);
}

// ---------------------------------------------------------------------------
// Wandering
// ---------------------------------------------------------------------------

/// The tile itself.
pub(crate) fn tile_of(t: u8) -> (r: u8)
    ensures
        r == t,
{
    t
}

/// The base score of a tile for a wandering chaser: 7 where it may walk
/// (below `wallIdx`), else 1.
pub open spec fn wall_score(t: u8, wallIdx: usize) -> int {
    if (t as usize) < wallIdx {
        7
    } else {
        1
    }
}

/// The score of direction `d` for a chaser wandering at `loc`, moving in
/// `dir` and wanting `bias`: open tiles score 7, walls 1; turning back costs
/// 3; the wanted direction gains 1 and its opposite loses 1.
pub open spec fn wander_score(o: GraphicsView, loc: Mvec, dir: usize, bias: usize, wallIdx: usize, d: int) -> int {
    tile_wander_score(tile_toward(o, loc, d), dir, bias, wallIdx, d)
}

/// The wandering score of direction `d` toward tile `t`.
pub open spec fn tile_wander_score(t: u8, dir: usize, bias: usize, wallIdx: usize, d: int) -> int {
    wall_score(t, wallIdx) - ind(d == opposite_dir(dir)) * 3 + ind(bias != 4 && d == bias)
        - ind(bias != 4 && d == opposite_dir(bias))
}

/// Scores the four directions toward `tiles` for a wandering chaser.
fn score_wander(tiles: &[(u8, usize, isize, isize); 4], dir: usize, bias: usize, wallIdx: usize) -> (v: [(i32, usize); 4])
    requires
        dir != 4,
        bias <= 4,
        forall|d: int| 0 <= d < 4 ==> #[trigger] tiles[d].1 == d,
    ensures
        forall|d: int| 0 <= d < 4 ==> #[trigger] v[d].1 == d,
        scores_i32(v) == seq![
            tile_wander_score(tiles[0].0, dir, bias, wallIdx, 0),
            tile_wander_score(tiles[1].0, dir, bias, wallIdx, 1),
            tile_wander_score(tiles[2].0, dir, bias, wallIdx, 2),
            tile_wander_score(tiles[3].0, dir, bias, wallIdx, 3),
        ],
{
    // Available direction score: +7, else +1 so no final score negative
    let mut validDirs: [(i32, usize); 4] = [
        (if (tiles[0].0 as usize) < wallIdx { 7 } else { 1 }, tiles[0].1),
        (if (tiles[1].0 as usize) < wallIdx { 7 } else { 1 }, tiles[1].1),
        (if (tiles[2].0 as usize) < wallIdx { 7 } else { 1 }, tiles[2].1),
        (if (tiles[3].0 as usize) < wallIdx { 7 } else { 1 }, tiles[3].1),
    ];
    let od = opposite(dir);
    validDirs[od].0 = validDirs[od].0 - 3;  // Reverse current direction: -3, only go backwards if dead-end
    if 4 != bias {
        validDirs[bias].0 = validDirs[bias].0 + 1;  // Desired direction: +1
        let ob = opposite(bias);
        validDirs[ob].0 = validDirs[ob].0 - 1;  // Opposite desired direction: -1 (IE don't go down if user wants to go up eventually)
    }
    assert(scores_i32(validDirs) =~= seq![
        tile_wander_score(tiles[0].0, dir, bias, wallIdx, 0),
        tile_wander_score(tiles[1].0, dir, bias, wallIdx, 1),
        tile_wander_score(tiles[2].0, dir, bias, wallIdx, 2),
        tile_wander_score(tiles[3].0, dir, bias, wallIdx, 3),
    ]);
    validDirs
}

/// The scores of the four directions for a wandering chaser.
pub open spec fn wander_scores(o: GraphicsView, loc: Mvec, dir: usize, bias: usize, wallIdx: usize) -> Seq<int> {
    seq![
        wander_score(o, loc, dir, bias, wallIdx, 0),
        wander_score(o, loc, dir, bias, wallIdx, 1),
        wander_score(o, loc, dir, bias, wallIdx, 2),
        wander_score(o, loc, dir, bias, wallIdx, 3),
    ]
}

/// What `randir` gives: off the world, `dir` with nothing changed; on it,
/// one step of the generator to `n`, and the direction ranked `n` modulo the
/// number of best-scored directions (at most three) from the top, ranked by
/// `wander_score`, ties by direction number.
pub open spec fn wander_post(o: GraphicsView, loc: Mvec, dir: usize, bias: usize, wallIdx: usize, r: usize, o2: GraphicsView) -> bool {
    if !(loc.col() < WORLD_WIDTH && loc.row() < WORLD_HEIGHT) {
        r == dir && o2 == o
    } else {
        let sc = wander_scores(o, loc, dir, bias, wallIdx);
        let n = xorshift16(o.rnd);
        &&& o2 == (GraphicsView { rnd: n, ..o })
        &&& r < 4
        &&& rank4(sc, r as int) == 3 - (n as int) % ties3(sc, max4(sc))
    }
}

/// A chaser's random direction at `loc`: off the world it keeps `dir`;
/// otherwise it scores the four directions (`wander_score`), ranks them by
/// score, ties by direction number, and draws one number `n` from the
/// generator; of the best directions (at most three, `ties3`), it takes the
/// one ranked `n` modulo their number from the top.
pub fn randir(vid: &mut Graphics, loc: &Mvec, dir: usize, bias: usize, wallIdx: usize) -> (r: usize)
    requires
        old(vid)@.wf(),
        loc.w > 0,
        loc.h > 0,
        loc.col() < WORLD_WIDTH && loc.row() < WORLD_HEIGHT ==> dir != 4 && bias <= 4,
    ensures
        wander_post(old(vid)@, *loc, dir, bias, wallIdx, r, final(vid)@),
{
    let x = loc.x();
    let y = loc.y();
    if WORLD_WIDTH <= x || WORLD_HEIGHT <= y {
        return dir;  // If off field dont change direction.
    }
    // Weighted scoring to determine next direction.
    let tiles = vid.getFieldTiles(x, y, tile_of);
    let validDirs = score_wander(&tiles, dir, bias, wallIdx);
    let ghost sc = wander_scores(vid@, *loc, dir, bias, wallIdx);
    assert(tiles[0].0 == tile_toward(vid@, *loc, 0));
    assert(tiles[1].0 == tile_toward(vid@, *loc, 1));
    assert(tiles[2].0 == tile_toward(vid@, *loc, 2));
    assert(tiles[3].0 == tile_toward(vid@, *loc, 3));
    assert(scores_i32(validDirs) =~= sc);
    let sorted = sort_dirs_i32(validDirs);
    let r = // Tied best scored chosen randomly
    if sorted[3].0 == sorted[2].0 {
        if sorted[2].0 == sorted[1].0 {
            3
        } else {
            2
        }
    } else {
        1
    };
    proof {
        lemma_top_ties(sc, sorted[3].1 as int, sorted[2].1 as int, sorted[1].1 as int);
    }
    let n = vid.rnd.rnd();
    sorted[3 - n as usize % r].1
}

} // verus!
