use vstd::prelude::*;

use crate::gfx::{
    Graphics, GraphicsView, MEMORYSIZE, all_coded, code_map, encode_chars, flat_strs,
    lemma_all_coded_flat, lemma_code_map_at_most, lemma_code_map_contains, lemma_flat_strs_uniform, lemma_paint_rows_at_most, paint_rows,
    str_views, tiles_at_most, write_run,
};

verus! {

// ---------------------------------------------------------------------------
// Colours
// ---------------------------------------------------------------------------

/// Background, blue and white.
pub const EYES_PALETTE: [(char, u8); 3] = [(' ', 0), ('#', 4), ('.', 7)];

/// Background and yellow.
pub const PUKMAN_PALETTE: [(char, u8); 2] = [(' ', 0), ('o', 11)];

/// Background and yellow.
pub const DIGITS_PALETTE: [(char, u8); 2] = [(' ', 0), ('x', 11)];

/// Background, green and blue.
pub const IGNIGNOK_PALETTE: [(char, u8); 4] = [(' ', 0), ('g', 2), ('b', 4), ('.', 4)];

/// Background, green, blue, red, grey and white.
pub const DRINKY_BIRD_PALETTE: [(char, u8); 6] = [(' ', 0), ('g', 2), ('b', 4), ('r', 1), ('h', 7), ('w', 15)];

/// Background, blue walls, white pills, yellow power pills, magenta door.
pub const TILES_PALETTE: [(char, u8); 5] = [(' ', 0), ('@', 4), ('*', 7), ('#', 11), ('-', 13)];

/// The red chaser.
pub const GHOST_PALETTE_0: [(char, u8); 4] = [(' ', 0), ('#', 4), ('a', 9), ('.', 15)];

/// The pink chaser.
pub const GHOST_PALETTE_1: [(char, u8); 4] = [(' ', 0), ('#', 4), ('a', 13), ('.', 15)];

/// The cyan chaser.
pub const GHOST_PALETTE_2: [(char, u8); 4] = [(' ', 0), ('#', 4), ('a', 14), ('.', 15)];

/// The orange chaser.
pub const GHOST_PALETTE_3: [(char, u8); 4] = [(' ', 0), ('#', 4), ('a', 3), ('.', 15)];

/// The maze map: nothing, pill, power pill, then double corners, double edges, corners, inner corners, edges, hard corners, door.
pub const FIELD_PALETTE: [(char, u8); 36] = [(' ', 0), ('.', 1), ('*', 2), ('A', 4), ('B', 5), ('C', 6), ('D', 7), ('E', 8), ('F', 9), ('G', 10), ('H', 11), ('I', 12), ('J', 13), ('K', 14), ('L', 15), ('M', 16), ('N', 17), ('O', 18), ('P', 19), ('a', 20), ('b', 21), ('c', 22), ('d', 23), ('e', 24), ('f', 25), ('g', 26), ('h', 27), ('i', 28), ('j', 29), ('k', 30), ('l', 31), ('m', 32), ('n', 33), ('o', 34), ('p', 35), ('q', 3)];

// ---------------------------------------------------------------------------
// Pictures
// ---------------------------------------------------------------------------

/// The chaser, two frames for each of the four directions.
pub const GHOST_ART: [&'static str; 128] = [
    "                ",
    "      aaaa      ",
    "    aaaaaaaa    ",
    "   aaaaaaaaaa   ",
    "  aaa..aaaa..a  ",
    "  aa....aa....  ",
    "  aa..##aa..##  ",
    " aaa..##aa..##a ",
    " aaaa..aaaa..aa ",
    " aaaaaaaaaaaaaa ",
    " aaaaaaaaaaaaaa ",
    " aaaaaaaaaaaaaa ",
    " aaaaaaaaaaaaaa ",
    " aa aaa  aaa aa ",
    " a   aa  aa   a ",
    "                ",
    "                ",
    "      aaaa      ",
    "    aaaaaaaa    ",
    "   aaaaaaaaaa   ",
    "  aaa..aaaa..a  ",
    "  aa....aa....  ",
    "  aa..##aa..##  ",
    " aaa..##aa..##a ",
    " aaaa..aaaa..aa ",
    " aaaaaaaaaaaaaa ",
    " aaaaaaaaaaaaaa ",
    " aaaaaaaaaaaaaa ",
    " aaaaaaaaaaaaaa ",
    " aaaa aaaa aaaa ",
    "  aa   aa   aa  ",
    "                ",
    "                ",
    "      aaaa      ",
    "    aaaaaaaa    ",
    "   aaaaaaaaaa   ",
    "  aaaaaaaaaaaa  ",
    "  aa..aaaa..aa  ",
    "  a....aa....a  ",
    " aa....aa....aa ",
    " aa.##.aa.##.aa ",
    " aaa##aaaa##aaa ",
    " aaaaaaaaaaaaaa ",
    " aaaaaaaaaaaaaa ",
    " aaaaaaaaaaaaaa ",
    " aa aaa  aaa aa ",
    " a   aa  aa   a ",
    "                ",
    "                ",
    "      aaaa      ",
    "    aaaaaaaa    ",
    "   aaaaaaaaaa   ",
    "  aaaaaaaaaaaa  ",
    "  aa..aaaa..aa  ",
    "  a....aa....a  ",
    " aa....aa....aa ",
    " aa.##.aa.##.aa ",
    " aaa##aaaa##aaa ",
    " aaaaaaaaaaaaaa ",
    " aaaaaaaaaaaaaa ",
    " aaaaaaaaaaaaaa ",
    " aaaa aaaa aaaa ",
    "  aa   aa   aa  ",
    "                ",
    "                ",
    "      aaaa      ",
    "    aaaaaaaa    ",
    "   aaaaaaaaaa   ",
    "  a..aaaa..aaa  ",
    "  ....aa....aa  ",
    "  ##..aa##..aa  ",
    " a##..aa##..aaa ",
    " aa..aaaa..aaaa ",
    " aaaaaaaaaaaaaa ",
    " aaaaaaaaaaaaaa ",
    " aaaaaaaaaaaaaa ",
    " aaaaaaaaaaaaaa ",
    " aa aaa  aaa aa ",
    " a   aa  aa   a ",
    "                ",
    "                ",
    "      aaaa      ",
    "    aaaaaaaa    ",
    "   aaaaaaaaaa   ",
    "  a..aaaa..aaa  ",
    "  ....aa....aa  ",
    "  ##..aa##..aa  ",
    " a##..aa##..aaa ",
    " aa..aaaa..aaaa ",
    " aaaaaaaaaaaaaa ",
    " aaaaaaaaaaaaaa ",
    " aaaaaaaaaaaaaa ",
    " aaaaaaaaaaaaaa ",
    " aaaa aaaa aaaa ",
    "  aa   aa   aa  ",
    "                ",
    "                ",
    "      aaaa      ",
    "    ##aaaa##    ",
    "   .##.aa.##.   ",
    "  a....aa....a  ",
    "  a....aa....a  ",
    "  aa..aaaa..aa  ",
    " aaaaaaaaaaaaaa ",
    " aaaaaaaaaaaaaa ",
    " aaaaaaaaaaaaaa ",
    " aaaaaaaaaaaaaa ",
    " aaaaaaaaaaaaaa ",
    " aaaaaaaaaaaaaa ",
    " aa aaa  aaa aa ",
    " a   aa  aa   a ",
    "                ",
    "                ",
    "      aaaa      ",
    "    ##aaaa##    ",
    "   .##.aa.##.   ",
    "  a....aa....a  ",
    "  a....aa....a  ",
    "  aa..aaaa..aa  ",
    " aaaaaaaaaaaaaa ",
    " aaaaaaaaaaaaaa ",
    " aaaaaaaaaaaaaa ",
    " aaaaaaaaaaaaaa ",
    " aaaaaaaaaaaaaa ",
    " aaaaaaaaaaaaaa ",
    " aaaa aaaa aaaa ",
    "  aa   aa   aa  ",
    "                ",
];

/// The frightened chaser, two frames.
pub const SCARED_GHOST_ART: [&'static str; 32] = [
    "                ",
    "      ####      ",
    "    ########    ",
    "   ##########   ",
    "  ############  ",
    "  ###..##..###  ",
    "  ###..##..###  ",
    " ############## ",
    " ############## ",
    " ##..##..##..## ",
    " #.##..##..##.# ",
    " ############## ",
    " ############## ",
    " ## ###  ### ## ",
    " #   ##  ##   # ",
    "                ",
    "                ",
    "      ####      ",
    "    ########    ",
    "   ##########   ",
    "  ############  ",
    "  ###..##..###  ",
    "  ###..##..###  ",
    " ############## ",
    " ############## ",
    " ##..##..##..## ",
    " #.##..##..##.# ",
    " ############## ",
    " ############## ",
    " #### #### #### ",
    "  ##   ##   ##  ",
    "                ",
];

/// The eaten chaser's eyes, one frame for each direction.
pub const GHOST_EYES_ART: [&'static str; 64] = [
    "                ",
    "                ",
    "                ",
    "    ..    ..    ",
    "   ....  ....   ",
    "   ..##  ..##   ",
    "   ..##  ..##   ",
    "    ..    ..    ",
    "                ",
    "                ",
    "                ",
    "                ",
    "                ",
    "                ",
    "                ",
    "                ",
    "                ",
    "                ",
    "                ",
    "                ",
    "                ",
    "    ..    ..    ",
    "   ....  ....   ",
    "   ....  ....   ",
    "   .##.  .##.   ",
    "    ##    ##    ",
    "                ",
    "                ",
    "                ",
    "                ",
    "                ",
    "                ",
    "                ",
    "                ",
    "                ",
    "    ..    ..    ",
    "   ....  ....   ",
    "   ##..  ##..   ",
    "   ##..  ##..   ",
    "    ..    ..    ",
    "                ",
    "                ",
    "                ",
    "                ",
    "                ",
    "                ",
    "                ",
    "                ",
    "                ",
    "                ",
    "    ##    ##    ",
    "   .##.  .##.   ",
    "   ....  ....   ",
    "   ....  ....   ",
    "    ..    ..    ",
    "                ",
    "                ",
    "                ",
    "                ",
    "                ",
    "                ",
    "                ",
    "                ",
    "                ",
];

/// The runner: closed, then half and wide open for each direction.
pub const PUKMAN_ART: [&'static str; 144] = [
    "                ",
    "     ooooo      ",
    "   ooooooooo    ",
    "  ooooooooooo   ",
    "  ooooooooooo   ",
    " ooooooooooooo  ",
    " ooooooooooooo  ",
    " ooooooooooooo  ",
    " ooooooooooooo  ",
    " ooooooooooooo  ",
    "  ooooooooooo   ",
    "  ooooooooooo   ",
    "   ooooooooo    ",
    "     ooooo      ",
    "                ",
    "                ",
    "                ",
    "     ooooo      ",
    "   ooooooooo    ",
    "  ooooooooooo   ",
    "  ooooooooooo   ",
    " oooooooooo     ",
    " ooooooo        ",
    " oooo           ",
    " ooooooo        ",
    " oooooooooo     ",
    "  ooooooooooo   ",
    "  ooooooooooo   ",
    "   ooooooooo    ",
    "     ooooo      ",
    "                ",
    "                ",
    "                ",
    "     ooooo      ",
    "   ooooooo      ",
    "  ooooooo       ",
    "  oooooo        ",
    " oooooo         ",
    " ooooo          ",
    " oooo           ",
    " ooooo          ",
    " oooooo         ",
    "  oooooo        ",
    "  ooooooo       ",
    "   ooooooo      ",
    "     ooooo      ",
    "                ",
    "                ",
    "                ",
    "     ooooo      ",
    "   ooooooooo    ",
    "  ooooooooooo   ",
    "  ooooooooooo   ",
    " oooooo oooooo  ",
    " oooooo oooooo  ",
    " oooooo oooooo  ",
    " ooooo   ooooo  ",
    " ooooo   ooooo  ",
    "  oooo   oooo   ",
    "  ooo     ooo   ",
    "   oo     oo    ",
    "                ",
    "                ",
    "                ",
    "                ",
    "     ooooo      ",
    "   ooooooooo    ",
    "  ooooooooooo   ",
    "  ooooooooooo   ",
    " oooooo oooooo  ",
    " ooooo   ooooo  ",
    " oooo     oooo  ",
    " ooo       ooo  ",
    " oo         oo  ",
    "                ",
    "                ",
    "                ",
    "                ",
    "                ",
    "                ",
    "                ",
    "     ooooo      ",
    "   ooooooooo    ",
    "  ooooooooooo   ",
    "  ooooooooooo   ",
    "    oooooooooo  ",
    "       ooooooo  ",
    "          oooo  ",
    "       ooooooo  ",
    "    oooooooooo  ",
    "  ooooooooooo   ",
    "  ooooooooooo   ",
    "   ooooooooo    ",
    "     ooooo      ",
    "                ",
    "                ",
    "                ",
    "     ooooo      ",
    "     ooooooo    ",
    "     oooooooo   ",
    "       oooooo   ",
    "        oooooo  ",
    "         ooooo  ",
    "          oooo  ",
    "         ooooo  ",
    "        oooooo  ",
    "       oooooo   ",
    "      ooooooo   ",
    "     ooooooo    ",
    "     ooooo      ",
    "                ",
    "                ",
    "                ",
    "                ",
    "   oo     oo    ",
    "  ooo     ooo   ",
    "  oooo   oooo   ",
    " ooooo   ooooo  ",
    " ooooo   ooooo  ",
    " oooooo oooooo  ",
    " oooooo oooooo  ",
    " oooooo oooooo  ",
    "  ooooooooooo   ",
    "  ooooooooooo   ",
    "   ooooooooo    ",
    "     ooooo      ",
    "                ",
    "                ",
    "                ",
    "                ",
    "                ",
    "                ",
    "                ",
    " oo         oo  ",
    " ooo       ooo  ",
    " oooo     oooo  ",
    " ooooo   ooooo  ",
    " oooooo oooooo  ",
    "  ooooooooooo   ",
    "  ooooooooooo   ",
    "   ooooooooo    ",
    "     ooooo      ",
    "                ",
    "                ",
];

/// Ten large digits, then ten small ones.
pub const DIGITS_ART: [&'static str; 320] = [
    "  xxxx          ",
    " xx  xx         ",
    " xx xxx         ",
    " xxx xx         ",
    " xx  xx         ",
    " xx  xx         ",
    "  xxxx          ",
    "                ",
    "                ",
    "                ",
    "                ",
    "                ",
    "                ",
    "                ",
    "                ",
    "                ",
    "   xx           ",
    "   xx           ",
    "  xxx           ",
    "   xx           ",
    "   xx           ",
    "   xx           ",
    " xxxxxx         ",
    "                ",
    "                ",
    "                ",
    "                ",
    "                ",
    "                ",
    "                ",
    "                ",
    "                ",
    "  xxxx          ",
    " xx  xx         ",
    "     xx         ",
    "    xx          ",
    "  xx            ",
    " xx             ",
    " xxxxxx         ",
    "                ",
    "                ",
    "                ",
    "                ",
    "                ",
    "                ",
    "                ",
    "                ",
    "                ",
    "  xxxx          ",
    " xx  xx         ",
    "     xx         ",
    "   xxx          ",
    "     xx         ",
    " xx  xx         ",
    "  xxxx          ",
    "                ",
    "                ",
    "                ",
    "                ",
    "                ",
    "                ",
    "                ",
    "                ",
    "                ",
    "     xx         ",
    "    xxx         ",
    "   xxxx         ",
    " xx  xx         ",
    " xxxxxxx        ",
    "     xx         ",
    "     xx         ",
    "                ",
    "                ",
    "                ",
    "                ",
    "                ",
    "                ",
    "                ",
    "                ",
    "                ",
    " xxxxxx         ",
    " xx             ",
    " xxxxx          ",
    "     xx         ",
    "     xx         ",
    " xx  xx         ",
    "  xxxx          ",
    "                ",
    "                ",
    "                ",
    "                ",
    "                ",
    "                ",
    "                ",
    "                ",
    "                ",
    "  xxxx          ",
    " xx  xx         ",
    " xx             ",
    " xxxxx          ",
    " xx  xx         ",
    " xx  xx         ",
    "  xxxx          ",
    "                ",
    "                ",
    "                ",
    "                ",
    "                ",
    "                ",
    "                ",
    "                ",
    "                ",
    " xxxxxx         ",
    " xx  xx         ",
    "    xx          ",
    "   xx           ",
    "   xx           ",
    "   xx           ",
    "   xx           ",
    "                ",
    "                ",
    "                ",
    "                ",
    "                ",
    "                ",
    "                ",
    "                ",
    "                ",
    "  xxxx          ",
    " xx  xx         ",
    " xx  xx         ",
    "  xxxx          ",
    " xx  xx         ",
    " xx  xx         ",
    "  xxxx          ",
    "                ",
    "                ",
    "                ",
    "                ",
    "                ",
    "                ",
    "                ",
    "                ",
    "                ",
    "  xxxx          ",
    " xx  xx         ",
    " xx  xx         ",
    "  xxxxx         ",
    "     xx         ",
    " xx  xx         ",
    "  xxxx          ",
    "                ",
    "                ",
    "                ",
    "                ",
    "                ",
    "                ",
    "                ",
    "                ",
    "                ",
    " xx             ",
    "x  x            ",
    "x  x            ",
    " xx             ",
    "                ",
    "                ",
    "                ",
    "                ",
    "                ",
    "                ",
    "                ",
    "                ",
    "                ",
    "                ",
    "                ",
    "                ",
    " xx             ",
    " xx             ",
    " xx             ",
    " xx             ",
    "                ",
    "                ",
    "                ",
    "                ",
    "                ",
    "                ",
    "                ",
    "                ",
    "                ",
    "                ",
    "                ",
    "                ",
    "xxxx            ",
    "  xx            ",
    "xx              ",
    "xxxx            ",
    "                ",
    "                ",
    "                ",
    "                ",
    "                ",
    "                ",
    "                ",
    "                ",
    "                ",
    "                ",
    "                ",
    "                ",
    "xxxx            ",
    "  xx            ",
    " xxx            ",
    "xxxx            ",
    "                ",
    "                ",
    "                ",
    "                ",
    "                ",
    "                ",
    "                ",
    "                ",
    "                ",
    "                ",
    "                ",
    "                ",
    "x  x            ",
    "xxxx            ",
    "   x            ",
    "   x            ",
    "                ",
    "                ",
    "                ",
    "                ",
    "                ",
    "                ",
    "                ",
    "                ",
    "                ",
    "                ",
    "                ",
    "                ",
    "xxxx            ",
    "xx              ",
    "  xx            ",
    "xxx             ",
    "                ",
    "                ",
    "                ",
    "                ",
    "                ",
    "                ",
    "                ",
    "                ",
    "                ",
    "                ",
    "                ",
    "                ",
    " xx             ",
    "x               ",
    "xxxx            ",
    " xx             ",
    "                ",
    "                ",
    "                ",
    "                ",
    "                ",
    "                ",
    "                ",
    "                ",
    "                ",
    "                ",
    "                ",
    "                ",
    "xxxx            ",
    "   x            ",
    "  x             ",
    "  x             ",
    "                ",
    "                ",
    "                ",
    "                ",
    "                ",
    "                ",
    "                ",
    "                ",
    "                ",
    "                ",
    "                ",
    "                ",
    "xxxx            ",
    "xx x            ",
    "x xx            ",
    "xxxx            ",
    "                ",
    "                ",
    "                ",
    "                ",
    "                ",
    "                ",
    "                ",
    "                ",
    "                ",
    "                ",
    "                ",
    "                ",
    "xxxx            ",
    "xxxx            ",
    "   x            ",
    "   x            ",
    "                ",
    "                ",
    "                ",
    "                ",
    "                ",
    "                ",
    "                ",
    "                ",
    "                ",
    "                ",
    "                ",
    "                ",
];

/// The mascot, two frames.
pub const IGNIGNOK_ART: [&'static str; 32] = [
    "                ",
    "    gg     ggg  ",
    "    ggg    ggg  ",
    "  ggggg gggggg  ",
    "  ggg.gggg.ggg  ",
    "  gg.gggggg.gg  ",
    "  g.g..gg..g.g  ",
    "   ggggggggggg  ",
    "   ggggggggggg b",
    "   ggggggggggg b",
    " bggg......gggb ",
    "bgggggggggggggg ",
    "bgggggggggggggg ",
    "     b    b     ",
    "   bbb    bbb   ",
    "                ",
    "                ",
    "    gg     ggg  ",
    "    ggg    ggg  ",
    "  ggggg gggggg  ",
    "  ggg.gggg.ggg  ",
    "  gg.gggggg.gg  ",
    "  g.g..gg..g.g  ",
    "   ggggggggggg  ",
    "b  ggggggggggg  ",
    "b  ggggggggggg  ",
    " bggg......gggb ",
    " ggggggggggggggb",
    " ggggggggggggggb",
    "     b    b     ",
    "   bbb    bbb   ",
    "                ",
];

/// The drinking bird, two frames.
pub const DRINKY_BIRD_ART: [&'static str; 32] = [
    "    b           ",
    "   bbbb         ",
    "   bbrrr        ",
    "    brrr        ",
    "    r  h        ",
    "   r    h       ",
    "       wwh      ",
    "       ww h     ",
    "       ww  h g  ",
    "       ww   gg  ",
    "        ww  gg  ",
    "        ww      ",
    "         w      ",
    "         rr     ",
    "      r  rr     ",
    "      rrrrr     ",
    "                ",
    "                ",
    "                ",
    "                ",
    " b           g  ",
    "bbrr          g ",
    "bbrrhhhhhhhhhhgg",
    " br    ww     gg",
    "  r    ww       ",
    "       ww       ",
    "        ww      ",
    "        ww      ",
    "         w      ",
    "         rr     ",
    "      r  rr     ",
    "      rrrrr     ",
];

/// The maze tiles: empty, pill, power pill, door, and the wall pieces.
pub const TILES_ART: [&'static str; 288] = [
    "        ",
    "        ",
    "        ",
    "        ",
    "        ",
    "        ",
    "        ",
    "        ",
    "        ",
    "        ",
    "        ",
    "   **   ",
    "   **   ",
    "        ",
    "        ",
    "        ",
    "  ####  ",
    " ###### ",
    "########",
    "########",
    "########",
    "########",
    " ###### ",
    "  ####  ",
    "        ",
    "        ",
    "        ",
    "        ",
    "        ",
    "--------",
    "--------",
    "        ",
    "    @@@@",
    "  @@    ",
    " @      ",
    " @   @@@",
    "@   @   ",
    "@  @    ",
    "@  @    ",
    "@  @    ",
    "@@@@    ",
    "    @@  ",
    "      @ ",
    "@@@   @ ",
    "   @   @",
    "    @  @",
    "    @  @",
    "    @  @",
    "@  @    ",
    "@  @    ",
    "@  @    ",
    "@   @   ",
    " @   @@@",
    " @      ",
    "  @@    ",
    "    @@@@",
    "    @  @",
    "    @  @",
    "    @  @",
    "   @   @",
    "@@@   @ ",
    "      @ ",
    "    @@  ",
    "@@@@    ",
    "@@@@@@@@",
    "        ",
    "        ",
    "     @@@",
    "    @   ",
    "   @    ",
    "   @    ",
    "   @    ",
    "@@@@@@@@",
    "        ",
    "        ",
    "@@@     ",
    "   @    ",
    "    @   ",
    "    @   ",
    "    @   ",
    "   @    ",
    "   @    ",
    "   @    ",
    "    @   ",
    "     @@@",
    "        ",
    "        ",
    "@@@@@@@@",
    "    @   ",
    "    @   ",
    "    @   ",
    "   @    ",
    "@@@     ",
    "        ",
    "        ",
    "@@@@@@@@",
    "@       ",
    "@       ",
    "@       ",
    "@    @@@",
    "@   @   ",
    "@  @    ",
    "@  @    ",
    "@  @    ",
    "       @",
    "       @",
    "       @",
    "@@@    @",
    "   @   @",
    "    @  @",
    "    @  @",
    "    @  @",
    "@  @    ",
    "@  @    ",
    "@  @    ",
    "@   @   ",
    "@    @@@",
    "@       ",
    "@       ",
    "@       ",
    "    @  @",
    "    @  @",
    "    @  @",
    "   @   @",
    "@@@    @",
    "       @",
    "       @",
    "       @",
    "@@@@@@@@",
    "        ",
    "        ",
    "@@@@@@@@",
    "        ",
    "        ",
    "        ",
    "        ",
    "@  @    ",
    "@  @    ",
    "@  @    ",
    "@  @    ",
    "@  @    ",
    "@  @    ",
    "@  @    ",
    "@  @    ",
    "    @  @",
    "    @  @",
    "    @  @",
    "    @  @",
    "    @  @",
    "    @  @",
    "    @  @",
    "    @  @",
    "        ",
    "        ",
    "        ",
    "        ",
    "@@@@@@@@",
    "        ",
    "        ",
    "@@@@@@@@",
    "        ",
    "        ",
    "        ",
    "        ",
    "      @@",
    "     @  ",
    "    @   ",
    "    @   ",
    "        ",
    "        ",
    "        ",
    "        ",
    "@@      ",
    "  @     ",
    "   @    ",
    "   @    ",
    "    @   ",
    "    @   ",
    "     @  ",
    "      @@",
    "        ",
    "        ",
    "        ",
    "        ",
    "   @    ",
    "   @    ",
    "  @     ",
    "@@      ",
    "        ",
    "        ",
    "        ",
    "        ",
    "        ",
    "        ",
    "        ",
    "     @@@",
    "    @   ",
    "   @    ",
    "   @    ",
    "   @    ",
    "        ",
    "        ",
    "        ",
    "@@@     ",
    "   @    ",
    "    @   ",
    "    @   ",
    "    @   ",
    "   @    ",
    "   @    ",
    "   @    ",
    "    @   ",
    "     @@@",
    "        ",
    "        ",
    "        ",
    "    @   ",
    "    @   ",
    "    @   ",
    "   @    ",
    "@@@     ",
    "        ",
    "        ",
    "        ",
    "        ",
    "        ",
    "        ",
    "        ",
    "@@@@@@@@",
    "        ",
    "        ",
    "        ",
    "    @   ",
    "    @   ",
    "    @   ",
    "    @   ",
    "    @   ",
    "    @   ",
    "    @   ",
    "    @   ",
    "   @    ",
    "   @    ",
    "   @    ",
    "   @    ",
    "   @    ",
    "   @    ",
    "   @    ",
    "   @    ",
    "        ",
    "        ",
    "        ",
    "@@@@@@@@",
    "        ",
    "        ",
    "        ",
    "        ",
    "        ",
    "        ",
    "        ",
    "        ",
    "    @@@@",
    "    @   ",
    "    @   ",
    "    @  @",
    "        ",
    "        ",
    "        ",
    "        ",
    "@@@@    ",
    "   @    ",
    "   @    ",
    "@  @    ",
    "    @  @",
    "    @   ",
    "    @   ",
    "    @@@@",
    "        ",
    "        ",
    "        ",
    "        ",
    "@  @    ",
    "   @    ",
    "   @    ",
    "@@@@    ",
    "        ",
    "        ",
    "        ",
    "        ",
];

/// The maze, one string per row of tiles.
pub const FIELD_ROWS: [&'static str; 35] = [
    "           N jk O           ",
    "AMMMMMMMMMMd cd cMMMMMMMMMMB",
    "N............  ............O",
    "N.aiib.aiiib.ab.aiiib.aiib.O",
    "N*j  k.j   k.jk.j   k.j  k*O",
    "N.clld.cllld.cd.cllld.clld.O",
    "N..........................O",
    "N.aiib.ab.aiiiiiib.ab.aiib.O",
    "N.clld.jk.cllfelld.jk.clld.O",
    "N......jk....jk....jk......O",
    "CPPPPb.jgiib jk aiihk.aPPPPD",
    "     N.jelld cd cllfk.O     ",
    "     N.jk          jk.O     ",
    "     N.jk mPPqqPPn jk.O     ",
    "MMMMMd.cd O      N cd.cMMMMMMM",
    "      .   O      N   .      ",
    "PPPPPb.ab O      N ab.aPPPPPPP",
    "     N.jk oMMMMMMp jk.O     ",
    "     N.jk          jk.O     ",
    "     N.jk aiiiiiib jk.O     ",
    "AMMMMd.cd cllfelld cd.cMMMMB",
    "N............jk............O",
    "N.aiib.aiiib.jk.aiiib.aiib.O",
    "N.clfk.cllld.cd.cllld.jeld.O",
    "N*..jk.......  .......jk..*O",
    "Kib.jk.ab.aiiiiiib.ab.jk.aiL",
    "Ild.cd.jk.cllfelld.jk.cd.clJ",
    "N......jk....jk....jk......O",
    "N.aiiiihgiib.jk.aiihgiiiib.O",
    "N.clllllllld.cd.clllllllld.O",
    "N..........................O",
    "CPPPPPPPPPPb ab aPPPPPPPPPPD",
    "           N jk O           ",
    "           N jk O           ",
    "           N jk O           ",
];
// ---------------------------------------------------------------------------
// Loading the pictures
// ---------------------------------------------------------------------------

/// `o` with the pictures `art` copied in at its memory cursor, in its colours.
pub open spec fn copied(o: GraphicsView, art: Seq<&str>) -> GraphicsView {
    GraphicsView {
        memory: write_run(o.memory, o.mem_ptr as int, encode_chars(o.colors, flat_strs(art))),
        mem_ptr: o.mem_ptr + flat_strs(art).len(),
        ..o
    }
}

/// `o` with the colours of the pairs `pal`.
pub open spec fn recolored(o: GraphicsView, pal: Seq<(char, u8)>) -> GraphicsView {
    GraphicsView { colors: code_map(pal), ..o }
}

/// Every character of `cs` has a colour in `cm`.
pub open spec fn has_colors(cm: Map<u32, u8>, cs: Seq<char>) -> bool {
    forall|i: int| 0 <= i < cs.len() ==> cm.contains_key(#[trigger] cs[i] as u32)
}

/// Copies a chaser in the colours that memory is set to into memory at the memory cursor, moves the cursor past it and
/// returns where it starts.
fn writeGhost2048b(vid: &mut Graphics) -> (r: usize)
    requires
        old(vid)@.wf(),
        old(vid)@.mem_ptr + 2048 <= MEMORYSIZE,
        has_colors(old(vid)@.colors, seq![' ', '#', '.', 'a']),
    ensures
        r == old(vid)@.mem_ptr,
        flat_strs(GHOST_ART@).len() == 2048,
        final(vid)@ == copied(old(vid)@, GHOST_ART@),
{
    proof {
        reveal_strlit("                ");
        reveal_strlit("      aaaa      ");
        reveal_strlit("    ##aaaa##    ");
        reveal_strlit("    aaaaaaaa    ");
        reveal_strlit("   .##.aa.##.   ");
        reveal_strlit("   aaaaaaaaaa   ");
        reveal_strlit("  ##..aa##..aa  ");
        reveal_strlit("  ....aa....aa  ");
        reveal_strlit("  a....aa....a  ");
        reveal_strlit("  a..aaaa..aaa  ");
        reveal_strlit("  aa   aa   aa  ");
        reveal_strlit("  aa..##aa..##  ");
        reveal_strlit("  aa....aa....  ");
        reveal_strlit("  aa..aaaa..aa  ");
        reveal_strlit("  aaa..aaaa..a  ");
        reveal_strlit("  aaaaaaaaaaaa  ");
        reveal_strlit(" a   aa  aa   a ");
        reveal_strlit(" a##..aa##..aaa ");
        reveal_strlit(" aa aaa  aaa aa ");
        reveal_strlit(" aa.##.aa.##.aa ");
        reveal_strlit(" aa....aa....aa ");
        reveal_strlit(" aa..aaaa..aaaa ");
        reveal_strlit(" aaa##aaaa##aaa ");
        reveal_strlit(" aaa..##aa..##a ");
        reveal_strlit(" aaaa aaaa aaaa ");
        reveal_strlit(" aaaa..aaaa..aa ");
        reveal_strlit(" aaaaaaaaaaaaaa ");
        assert(vid@.colors.contains_key(seq![' ', '#', '.', 'a'][0] as u32));
        assert(vid@.colors.contains_key(seq![' ', '#', '.', 'a'][1] as u32));
        assert(vid@.colors.contains_key(seq![' ', '#', '.', 'a'][2] as u32));
        assert(vid@.colors.contains_key(seq![' ', '#', '.', 'a'][3] as u32));
        lemma_flat_strs_uniform(GHOST_ART@, 16);
        lemma_all_coded_flat(vid@.colors, GHOST_ART@);
    }
    vid.initializeMemory(&GHOST_ART)
}

/// Copies the frightened chaser into memory at the memory cursor in its colours, moves the cursor past it and
/// returns where it starts.
fn writeScaredGhost512b(vid: &mut Graphics) -> (r: usize)
    requires
        old(vid)@.wf(),
        old(vid)@.mem_ptr + 512 <= MEMORYSIZE,
    ensures
        r == old(vid)@.mem_ptr,
        flat_strs(SCARED_GHOST_ART@).len() == 512,
        final(vid)@ == copied(recolored(old(vid)@, EYES_PALETTE@), SCARED_GHOST_ART@),
{
    vid.memorySetCharColorMap(&EYES_PALETTE);
    proof {
        reveal_strlit("                ");
        reveal_strlit("      ####      ");
        reveal_strlit("    ########    ");
        reveal_strlit("   ##########   ");
        reveal_strlit("  ##   ##   ##  ");
        reveal_strlit("  ############  ");
        reveal_strlit("  ###..##..###  ");
        reveal_strlit(" #   ##  ##   # ");
        reveal_strlit(" ## ###  ### ## ");
        reveal_strlit(" #### #### #### ");
        reveal_strlit(" ############## ");
        reveal_strlit(" ##..##..##..## ");
        reveal_strlit(" #.##..##..##.# ");
        assert(vid@.colors.contains_key(EYES_PALETTE@[0].0 as u32) && EYES_PALETTE@[0].0 == ' ');
        assert(vid@.colors.contains_key(EYES_PALETTE@[1].0 as u32) && EYES_PALETTE@[1].0 == '#');
        assert(vid@.colors.contains_key(EYES_PALETTE@[2].0 as u32) && EYES_PALETTE@[2].0 == '.');
        lemma_flat_strs_uniform(SCARED_GHOST_ART@, 16);
        lemma_all_coded_flat(vid@.colors, SCARED_GHOST_ART@);
    }
    vid.initializeMemory(&SCARED_GHOST_ART)
}

/// Copies the eaten chaser's eyes into memory at the memory cursor in its colours, moves the cursor past it and
/// returns where it starts.
fn writeGhostEyes1024b(vid: &mut Graphics) -> (r: usize)
    requires
        old(vid)@.wf(),
        old(vid)@.mem_ptr + 1024 <= MEMORYSIZE,
    ensures
        r == old(vid)@.mem_ptr,
        flat_strs(GHOST_EYES_ART@).len() == 1024,
        final(vid)@ == copied(recolored(old(vid)@, EYES_PALETTE@), GHOST_EYES_ART@),
{
    vid.memorySetCharColorMap(&EYES_PALETTE);
    proof {
        reveal_strlit("                ");
        reveal_strlit("    ##    ##    ");
        reveal_strlit("    ..    ..    ");
        reveal_strlit("   ##..  ##..   ");
        reveal_strlit("   .##.  .##.   ");
        reveal_strlit("   ..##  ..##   ");
        reveal_strlit("   ....  ....   ");
        assert(vid@.colors.contains_key(EYES_PALETTE@[0].0 as u32) && EYES_PALETTE@[0].0 == ' ');
        assert(vid@.colors.contains_key(EYES_PALETTE@[1].0 as u32) && EYES_PALETTE@[1].0 == '#');
        assert(vid@.colors.contains_key(EYES_PALETTE@[2].0 as u32) && EYES_PALETTE@[2].0 == '.');
        lemma_flat_strs_uniform(GHOST_EYES_ART@, 16);
        lemma_all_coded_flat(vid@.colors, GHOST_EYES_ART@);
    }
    vid.initializeMemory(&GHOST_EYES_ART)
}

/// Copies the runner into memory at the memory cursor in its colours, moves the cursor past it and
/// returns where it starts.
fn writePukman2304b(vid: &mut Graphics) -> (r: usize)
    requires
        old(vid)@.wf(),
        old(vid)@.mem_ptr + 2304 <= MEMORYSIZE,
    ensures
        r == old(vid)@.mem_ptr,
        flat_strs(PUKMAN_ART@).len() == 2304,
        final(vid)@ == copied(recolored(old(vid)@, PUKMAN_PALETTE@), PUKMAN_ART@),
{
    vid.memorySetCharColorMap(&PUKMAN_PALETTE);
    proof {
        reveal_strlit("                ");
        reveal_strlit("          oooo  ");
        reveal_strlit("         ooooo  ");
        reveal_strlit("        oooooo  ");
        reveal_strlit("       oooooo   ");
        reveal_strlit("       ooooooo  ");
        reveal_strlit("      ooooooo   ");
        reveal_strlit("     ooooo      ");
        reveal_strlit("     ooooooo    ");
        reveal_strlit("     oooooooo   ");
        reveal_strlit("    oooooooooo  ");
        reveal_strlit("   oo     oo    ");
        reveal_strlit("   ooooooo      ");
        reveal_strlit("   ooooooooo    ");
        reveal_strlit("  ooo     ooo   ");
        reveal_strlit("  oooo   oooo   ");
        reveal_strlit("  oooooo        ");
        reveal_strlit("  ooooooo       ");
        reveal_strlit("  ooooooooooo   ");
        reveal_strlit(" oo         oo  ");
        reveal_strlit(" ooo       ooo  ");
        reveal_strlit(" oooo           ");
        reveal_strlit(" oooo     oooo  ");
        reveal_strlit(" ooooo          ");
        reveal_strlit(" ooooo   ooooo  ");
        reveal_strlit(" oooooo         ");
        reveal_strlit(" oooooo oooooo  ");
        reveal_strlit(" ooooooo        ");
        reveal_strlit(" oooooooooo     ");
        reveal_strlit(" ooooooooooooo  ");
        assert(vid@.colors.contains_key(PUKMAN_PALETTE@[0].0 as u32) && PUKMAN_PALETTE@[0].0 == ' ');
        assert(vid@.colors.contains_key(PUKMAN_PALETTE@[1].0 as u32) && PUKMAN_PALETTE@[1].0 == 'o');
        lemma_flat_strs_uniform(PUKMAN_ART@, 16);
        lemma_all_coded_flat(vid@.colors, PUKMAN_ART@);
    }
    vid.initializeMemory(&PUKMAN_ART)
}

/// Copies the digits into memory at the memory cursor in its colours, moves the cursor past it and
/// returns where it starts.
fn writeDigits640b(vid: &mut Graphics) -> (r: usize)
    requires
        old(vid)@.wf(),
        old(vid)@.mem_ptr + 5120 <= MEMORYSIZE,
    ensures
        r == old(vid)@.mem_ptr,
        flat_strs(DIGITS_ART@).len() == 5120,
        final(vid)@ == copied(recolored(old(vid)@, DIGITS_PALETTE@), DIGITS_ART@),
{
    vid.memorySetCharColorMap(&DIGITS_PALETTE);
    proof {
        reveal_strlit("                ");
        reveal_strlit("     xx         ");
        reveal_strlit("    xx          ");
        reveal_strlit("    xxx         ");
        reveal_strlit("   x            ");
        reveal_strlit("   xx           ");
        reveal_strlit("   xxx          ");
        reveal_strlit("   xxxx         ");
        reveal_strlit("  x             ");
        reveal_strlit("  xx            ");
        reveal_strlit("  xxx           ");
        reveal_strlit("  xxxx          ");
        reveal_strlit("  xxxxx         ");
        reveal_strlit(" xx             ");
        reveal_strlit(" xx  xx         ");
        reveal_strlit(" xx xxx         ");
        reveal_strlit(" xxx            ");
        reveal_strlit(" xxx xx         ");
        reveal_strlit(" xxxxx          ");
        reveal_strlit(" xxxxxx         ");
        reveal_strlit(" xxxxxxx        ");
        reveal_strlit("x               ");
        reveal_strlit("x  x            ");
        reveal_strlit("x xx            ");
        reveal_strlit("xx              ");
        reveal_strlit("xx x            ");
        reveal_strlit("xxx             ");
        reveal_strlit("xxxx            ");
        assert(vid@.colors.contains_key(DIGITS_PALETTE@[0].0 as u32) && DIGITS_PALETTE@[0].0 == ' ');
        assert(vid@.colors.contains_key(DIGITS_PALETTE@[1].0 as u32) && DIGITS_PALETTE@[1].0 == 'x');
        lemma_flat_strs_uniform(DIGITS_ART@, 16);
        lemma_all_coded_flat(vid@.colors, DIGITS_ART@);
    }
    vid.initializeMemory(&DIGITS_ART)
}

/// Copies the mascot into memory at the memory cursor in its colours, moves the cursor past it and
/// returns where it starts.
fn writeIgnignok(vid: &mut Graphics) -> (r: usize)
    requires
        old(vid)@.wf(),
        old(vid)@.mem_ptr + 512 <= MEMORYSIZE,
    ensures
        r == old(vid)@.mem_ptr,
        flat_strs(IGNIGNOK_ART@).len() == 512,
        final(vid)@ == copied(recolored(old(vid)@, IGNIGNOK_PALETTE@), IGNIGNOK_ART@),
{
    vid.memorySetCharColorMap(&IGNIGNOK_PALETTE);
    proof {
        reveal_strlit("                ");
        reveal_strlit("     b    b     ");
        reveal_strlit("    gg     ggg  ");
        reveal_strlit("    ggg    ggg  ");
        reveal_strlit("   bbb    bbb   ");
        reveal_strlit("   ggggggggggg  ");
        reveal_strlit("   ggggggggggg b");
        reveal_strlit("  g.g..gg..g.g  ");
        reveal_strlit("  gg.gggggg.gg  ");
        reveal_strlit("  ggg.gggg.ggg  ");
        reveal_strlit("  ggggg gggggg  ");
        reveal_strlit(" bggg......gggb ");
        reveal_strlit(" ggggggggggggggb");
        reveal_strlit("b  ggggggggggg  ");
        reveal_strlit("bgggggggggggggg ");
        assert(vid@.colors.contains_key(IGNIGNOK_PALETTE@[0].0 as u32) && IGNIGNOK_PALETTE@[0].0 == ' ');
        assert(vid@.colors.contains_key(IGNIGNOK_PALETTE@[1].0 as u32) && IGNIGNOK_PALETTE@[1].0 == 'g');
        assert(vid@.colors.contains_key(IGNIGNOK_PALETTE@[2].0 as u32) && IGNIGNOK_PALETTE@[2].0 == 'b');
        assert(vid@.colors.contains_key(IGNIGNOK_PALETTE@[3].0 as u32) && IGNIGNOK_PALETTE@[3].0 == '.');
        lemma_flat_strs_uniform(IGNIGNOK_ART@, 16);
        lemma_all_coded_flat(vid@.colors, IGNIGNOK_ART@);
    }
    vid.initializeMemory(&IGNIGNOK_ART)
}

/// Copies the drinking bird into memory at the memory cursor in its colours, moves the cursor past it and
/// returns where it starts.
fn _writeDrinkyBird(vid: &mut Graphics) -> (r: usize)
    requires
        old(vid)@.wf(),
        old(vid)@.mem_ptr + 512 <= MEMORYSIZE,
    ensures
        r == old(vid)@.mem_ptr,
        flat_strs(DRINKY_BIRD_ART@).len() == 512,
        final(vid)@ == copied(recolored(old(vid)@, DRINKY_BIRD_PALETTE@), DRINKY_BIRD_ART@),
{
    vid.memorySetCharColorMap(&DRINKY_BIRD_PALETTE);
    proof {
        reveal_strlit("                ");
        reveal_strlit("         rr     ");
        reveal_strlit("         w      ");
        reveal_strlit("        ww      ");
        reveal_strlit("        ww  gg  ");
        reveal_strlit("       ww       ");
        reveal_strlit("       ww   gg  ");
        reveal_strlit("       ww  h g  ");
        reveal_strlit("       ww h     ");
        reveal_strlit("       wwh      ");
        reveal_strlit("      r  rr     ");
        reveal_strlit("      rrrrr     ");
        reveal_strlit("    b           ");
        reveal_strlit("    brrr        ");
        reveal_strlit("    r  h        ");
        reveal_strlit("   bbbb         ");
        reveal_strlit("   bbrrr        ");
        reveal_strlit("   r    h       ");
        reveal_strlit("  r    ww       ");
        reveal_strlit(" b           g  ");
        reveal_strlit(" br    ww     gg");
        reveal_strlit("bbrr          g ");
        reveal_strlit("bbrrhhhhhhhhhhgg");
        assert(vid@.colors.contains_key(DRINKY_BIRD_PALETTE@[0].0 as u32) && DRINKY_BIRD_PALETTE@[0].0 == ' ');
        assert(vid@.colors.contains_key(DRINKY_BIRD_PALETTE@[1].0 as u32) && DRINKY_BIRD_PALETTE@[1].0 == 'g');
        assert(vid@.colors.contains_key(DRINKY_BIRD_PALETTE@[2].0 as u32) && DRINKY_BIRD_PALETTE@[2].0 == 'b');
        assert(vid@.colors.contains_key(DRINKY_BIRD_PALETTE@[3].0 as u32) && DRINKY_BIRD_PALETTE@[3].0 == 'r');
        assert(vid@.colors.contains_key(DRINKY_BIRD_PALETTE@[4].0 as u32) && DRINKY_BIRD_PALETTE@[4].0 == 'h');
        assert(vid@.colors.contains_key(DRINKY_BIRD_PALETTE@[5].0 as u32) && DRINKY_BIRD_PALETTE@[5].0 == 'w');
        lemma_flat_strs_uniform(DRINKY_BIRD_ART@, 16);
        lemma_all_coded_flat(vid@.colors, DRINKY_BIRD_ART@);
    }
    vid.initializeMemory(&DRINKY_BIRD_ART)
}

/// Copies the maze tiles into memory at the memory cursor in its colours, moves the cursor past it and
/// returns where it starts.
fn writeTiles(vid: &mut Graphics) -> (r: usize)
    requires
        old(vid)@.wf(),
        old(vid)@.mem_ptr + 2304 <= MEMORYSIZE,
    ensures
        r == old(vid)@.mem_ptr,
        flat_strs(TILES_ART@).len() == 2304,
        final(vid)@ == copied(recolored(old(vid)@, TILES_PALETTE@), TILES_ART@),
{
    vid.memorySetCharColorMap(&TILES_PALETTE);
    proof {
        reveal_strlit("        ");
        reveal_strlit("       @");
        reveal_strlit("      @ ");
        reveal_strlit("      @@");
        reveal_strlit("     @  ");
        reveal_strlit("     @@@");
        reveal_strlit("    @   ");
        reveal_strlit("    @  @");
        reveal_strlit("    @@  ");
        reveal_strlit("    @@@@");
        reveal_strlit("   **   ");
        reveal_strlit("   @    ");
        reveal_strlit("   @   @");
        reveal_strlit("  ####  ");
        reveal_strlit("  @     ");
        reveal_strlit("  @@    ");
        reveal_strlit(" ###### ");
        reveal_strlit(" @      ");
        reveal_strlit(" @   @@@");
        reveal_strlit("########");
        reveal_strlit("--------");
        reveal_strlit("@       ");
        reveal_strlit("@    @@@");
        reveal_strlit("@   @   ");
        reveal_strlit("@  @    ");
        reveal_strlit("@@      ");
        reveal_strlit("@@@     ");
        reveal_strlit("@@@    @");
        reveal_strlit("@@@   @ ");
        reveal_strlit("@@@@    ");
        reveal_strlit("@@@@@@@@");
        assert(vid@.colors.contains_key(TILES_PALETTE@[0].0 as u32) && TILES_PALETTE@[0].0 == ' ');
        assert(vid@.colors.contains_key(TILES_PALETTE@[1].0 as u32) && TILES_PALETTE@[1].0 == '@');
        assert(vid@.colors.contains_key(TILES_PALETTE@[2].0 as u32) && TILES_PALETTE@[2].0 == '*');
        assert(vid@.colors.contains_key(TILES_PALETTE@[3].0 as u32) && TILES_PALETTE@[3].0 == '#');
        assert(vid@.colors.contains_key(TILES_PALETTE@[4].0 as u32) && TILES_PALETTE@[4].0 == '-');
        lemma_flat_strs_uniform(TILES_ART@, 8);
        lemma_all_coded_flat(vid@.colors, TILES_ART@);
    }
    vid.initializeMemory(&TILES_ART)
}
/// The bytes of memory that the game's pictures take.
pub const PUKMAN_DATA_SIZE: usize = 19968;

/// The state after the game's pictures are loaded into memory one after the
/// other (the four chasers, frightened chaser, eyes, runner, mascot, digits,
/// tiles) and the maze is painted into the world.
pub open spec fn pukman_video(o: GraphicsView) -> GraphicsView {
    let g0 = copied(recolored(o, GHOST_PALETTE_0@), GHOST_ART@);
    let g1 = copied(recolored(g0, GHOST_PALETTE_1@), GHOST_ART@);
    let g2 = copied(recolored(g1, GHOST_PALETTE_2@), GHOST_ART@);
    let g3 = copied(recolored(g2, GHOST_PALETTE_3@), GHOST_ART@);
    let sc = copied(recolored(g3, EYES_PALETTE@), SCARED_GHOST_ART@);
    let ey = copied(recolored(sc, EYES_PALETTE@), GHOST_EYES_ART@);
    let pk = copied(recolored(ey, PUKMAN_PALETTE@), PUKMAN_ART@);
    let ig = copied(recolored(pk, IGNIGNOK_PALETTE@), IGNIGNOK_ART@);
    let dg = copied(recolored(ig, DIGITS_PALETTE@), DIGITS_ART@);
    let tl = copied(recolored(dg, TILES_PALETTE@), TILES_ART@);
    GraphicsView { world: paint_rows(tl.world, code_map(FIELD_PALETTE@), str_views(FIELD_ROWS@)), ..tl }
}

/// Where each picture starts when loading begins at `start`: the four
/// chasers, the frightened chaser, the eyes, the runner, the mascot, the
/// digits and the tiles.
pub open spec fn pukman_offsets(start: int) -> Seq<int> {
    seq![start, start + 2048, start + 4096, start + 6144, start + 8192, start + 8704, start + 9728,
        start + 12032, start + 12544, start + 17664]
}

/// Loads the game's pictures into memory, paints the maze into the world,
/// and returns where each picture starts (see `pukman_offsets`).
pub fn initializeVideoDataPukman(vid: &mut Graphics) -> (offsets: [usize; 10])
    requires
        old(vid)@.wf(),
        old(vid)@.mem_ptr + PUKMAN_DATA_SIZE <= MEMORYSIZE,
    ensures
        forall|i: int| 0 <= i < 10 ==> offsets@[i] == #[trigger] pukman_offsets(old(vid)@.mem_ptr as int)[i],
        final(vid)@ == pukman_video(old(vid)@),
        final(vid)@.wf(),
        tiles_at_most(old(vid)@.world, 35) ==> tiles_at_most(final(vid)@.world, 35),
{
    let mut offsets: [usize; 10] = [0; 10];

    vid.memorySetCharColorMap(&GHOST_PALETTE_0);
    proof {
        assert(vid@.colors.contains_key(GHOST_PALETTE_0@[0].0 as u32) && GHOST_PALETTE_0@[0].0 == ' ');
        assert(vid@.colors.contains_key(GHOST_PALETTE_0@[1].0 as u32) && GHOST_PALETTE_0@[1].0 == '#');
        assert(vid@.colors.contains_key(GHOST_PALETTE_0@[2].0 as u32) && GHOST_PALETTE_0@[2].0 == 'a');
        assert(vid@.colors.contains_key(GHOST_PALETTE_0@[3].0 as u32) && GHOST_PALETTE_0@[3].0 == '.');
        assert(has_colors(vid@.colors, seq![' ', '#', '.', 'a']));
    }
    offsets[0] = writeGhost2048b(vid);

    vid.memorySetCharColorMap(&GHOST_PALETTE_1);
    proof {
        assert(vid@.colors.contains_key(GHOST_PALETTE_1@[0].0 as u32) && GHOST_PALETTE_1@[0].0 == ' ');
        assert(vid@.colors.contains_key(GHOST_PALETTE_1@[1].0 as u32) && GHOST_PALETTE_1@[1].0 == '#');
        assert(vid@.colors.contains_key(GHOST_PALETTE_1@[2].0 as u32) && GHOST_PALETTE_1@[2].0 == 'a');
        assert(vid@.colors.contains_key(GHOST_PALETTE_1@[3].0 as u32) && GHOST_PALETTE_1@[3].0 == '.');
        assert(has_colors(vid@.colors, seq![' ', '#', '.', 'a']));
    }
    offsets[1] = writeGhost2048b(vid);

    vid.memorySetCharColorMap(&GHOST_PALETTE_2);
    proof {
        assert(vid@.colors.contains_key(GHOST_PALETTE_2@[0].0 as u32) && GHOST_PALETTE_2@[0].0 == ' ');
        assert(vid@.colors.contains_key(GHOST_PALETTE_2@[1].0 as u32) && GHOST_PALETTE_2@[1].0 == '#');
        assert(vid@.colors.contains_key(GHOST_PALETTE_2@[2].0 as u32) && GHOST_PALETTE_2@[2].0 == 'a');
        assert(vid@.colors.contains_key(GHOST_PALETTE_2@[3].0 as u32) && GHOST_PALETTE_2@[3].0 == '.');
        assert(has_colors(vid@.colors, seq![' ', '#', '.', 'a']));
    }
    offsets[2] = writeGhost2048b(vid);

    vid.memorySetCharColorMap(&GHOST_PALETTE_3);
    proof {
        assert(vid@.colors.contains_key(GHOST_PALETTE_3@[0].0 as u32) && GHOST_PALETTE_3@[0].0 == ' ');
        assert(vid@.colors.contains_key(GHOST_PALETTE_3@[1].0 as u32) && GHOST_PALETTE_3@[1].0 == '#');
        assert(vid@.colors.contains_key(GHOST_PALETTE_3@[2].0 as u32) && GHOST_PALETTE_3@[2].0 == 'a');
        assert(vid@.colors.contains_key(GHOST_PALETTE_3@[3].0 as u32) && GHOST_PALETTE_3@[3].0 == '.');
        assert(has_colors(vid@.colors, seq![' ', '#', '.', 'a']));
    }
    offsets[3] = writeGhost2048b(vid);

    offsets[4] = writeScaredGhost512b(vid);
    offsets[5] = writeGhostEyes1024b(vid);
    offsets[6] = writePukman2304b(vid);
    offsets[7] = writeIgnignok(vid);
    offsets[8] = writeDigits640b(vid);
    offsets[9] = writeTiles(vid);

    proof {
        reveal_strlit("           N jk O           ");
        reveal_strlit("      .   O      N   .      ");
        reveal_strlit("     N.jelld cd cllfk.O     ");
        reveal_strlit("     N.jk          jk.O     ");
        reveal_strlit("     N.jk aiiiiiib jk.O     ");
        reveal_strlit("     N.jk mPPqqPPn jk.O     ");
        reveal_strlit("     N.jk oMMMMMMp jk.O     ");
        reveal_strlit("AMMMMMMMMMMd cd cMMMMMMMMMMB");
        reveal_strlit("AMMMMd.cd cllfelld cd.cMMMMB");
        reveal_strlit("CPPPPPPPPPPb ab aPPPPPPPPPPD");
        reveal_strlit("CPPPPb.jgiib jk aiihk.aPPPPD");
        reveal_strlit("Ild.cd.jk.cllfelld.jk.cd.clJ");
        reveal_strlit("Kib.jk.ab.aiiiiiib.ab.jk.aiL");
        reveal_strlit("MMMMMd.cd O      N cd.cMMMMMMM");
        reveal_strlit("N*..jk.......  .......jk..*O");
        reveal_strlit("N*j  k.j   k.jk.j   k.j  k*O");
        reveal_strlit("N............  ............O");
        reveal_strlit("N..........................O");
        reveal_strlit("N............jk............O");
        reveal_strlit("N......jk....jk....jk......O");
        reveal_strlit("N.aiib.ab.aiiiiiib.ab.aiib.O");
        reveal_strlit("N.aiib.aiiib.ab.aiiib.aiib.O");
        reveal_strlit("N.aiib.aiiib.jk.aiiib.aiib.O");
        reveal_strlit("N.aiiiihgiib.jk.aiihgiiiib.O");
        reveal_strlit("N.clfk.cllld.cd.cllld.jeld.O");
        reveal_strlit("N.clld.cllld.cd.cllld.clld.O");
        reveal_strlit("N.clld.jk.cllfelld.jk.clld.O");
        reveal_strlit("N.clllllllld.cd.clllllllld.O");
        reveal_strlit("PPPPPb.ab O      N ab.aPPPPPPP");
        lemma_code_map_contains(FIELD_PALETTE@);
        assert(code_map(FIELD_PALETTE@).contains_key(FIELD_PALETTE@[0].0 as u32) && FIELD_PALETTE@[0].0 == ' ');
        assert(code_map(FIELD_PALETTE@).contains_key(FIELD_PALETTE@[1].0 as u32) && FIELD_PALETTE@[1].0 == '.');
        assert(code_map(FIELD_PALETTE@).contains_key(FIELD_PALETTE@[2].0 as u32) && FIELD_PALETTE@[2].0 == '*');
        assert(code_map(FIELD_PALETTE@).contains_key(FIELD_PALETTE@[3].0 as u32) && FIELD_PALETTE@[3].0 == 'A');
        assert(code_map(FIELD_PALETTE@).contains_key(FIELD_PALETTE@[4].0 as u32) && FIELD_PALETTE@[4].0 == 'B');
        assert(code_map(FIELD_PALETTE@).contains_key(FIELD_PALETTE@[5].0 as u32) && FIELD_PALETTE@[5].0 == 'C');
        assert(code_map(FIELD_PALETTE@).contains_key(FIELD_PALETTE@[6].0 as u32) && FIELD_PALETTE@[6].0 == 'D');
        assert(code_map(FIELD_PALETTE@).contains_key(FIELD_PALETTE@[7].0 as u32) && FIELD_PALETTE@[7].0 == 'E');
        assert(code_map(FIELD_PALETTE@).contains_key(FIELD_PALETTE@[8].0 as u32) && FIELD_PALETTE@[8].0 == 'F');
        assert(code_map(FIELD_PALETTE@).contains_key(FIELD_PALETTE@[9].0 as u32) && FIELD_PALETTE@[9].0 == 'G');
        assert(code_map(FIELD_PALETTE@).contains_key(FIELD_PALETTE@[10].0 as u32) && FIELD_PALETTE@[10].0 == 'H');
        assert(code_map(FIELD_PALETTE@).contains_key(FIELD_PALETTE@[11].0 as u32) && FIELD_PALETTE@[11].0 == 'I');
        assert(code_map(FIELD_PALETTE@).contains_key(FIELD_PALETTE@[12].0 as u32) && FIELD_PALETTE@[12].0 == 'J');
        assert(code_map(FIELD_PALETTE@).contains_key(FIELD_PALETTE@[13].0 as u32) && FIELD_PALETTE@[13].0 == 'K');
        assert(code_map(FIELD_PALETTE@).contains_key(FIELD_PALETTE@[14].0 as u32) && FIELD_PALETTE@[14].0 == 'L');
        assert(code_map(FIELD_PALETTE@).contains_key(FIELD_PALETTE@[15].0 as u32) && FIELD_PALETTE@[15].0 == 'M');
        assert(code_map(FIELD_PALETTE@).contains_key(FIELD_PALETTE@[16].0 as u32) && FIELD_PALETTE@[16].0 == 'N');
        assert(code_map(FIELD_PALETTE@).contains_key(FIELD_PALETTE@[17].0 as u32) && FIELD_PALETTE@[17].0 == 'O');
        assert(code_map(FIELD_PALETTE@).contains_key(FIELD_PALETTE@[18].0 as u32) && FIELD_PALETTE@[18].0 == 'P');
        assert(code_map(FIELD_PALETTE@).contains_key(FIELD_PALETTE@[19].0 as u32) && FIELD_PALETTE@[19].0 == 'a');
        assert(code_map(FIELD_PALETTE@).contains_key(FIELD_PALETTE@[20].0 as u32) && FIELD_PALETTE@[20].0 == 'b');
        assert(code_map(FIELD_PALETTE@).contains_key(FIELD_PALETTE@[21].0 as u32) && FIELD_PALETTE@[21].0 == 'c');
        assert(code_map(FIELD_PALETTE@).contains_key(FIELD_PALETTE@[22].0 as u32) && FIELD_PALETTE@[22].0 == 'd');
        assert(code_map(FIELD_PALETTE@).contains_key(FIELD_PALETTE@[23].0 as u32) && FIELD_PALETTE@[23].0 == 'e');
        assert(code_map(FIELD_PALETTE@).contains_key(FIELD_PALETTE@[24].0 as u32) && FIELD_PALETTE@[24].0 == 'f');
        assert(code_map(FIELD_PALETTE@).contains_key(FIELD_PALETTE@[25].0 as u32) && FIELD_PALETTE@[25].0 == 'g');
        assert(code_map(FIELD_PALETTE@).contains_key(FIELD_PALETTE@[26].0 as u32) && FIELD_PALETTE@[26].0 == 'h');
        assert(code_map(FIELD_PALETTE@).contains_key(FIELD_PALETTE@[27].0 as u32) && FIELD_PALETTE@[27].0 == 'i');
        assert(code_map(FIELD_PALETTE@).contains_key(FIELD_PALETTE@[28].0 as u32) && FIELD_PALETTE@[28].0 == 'j');
        assert(code_map(FIELD_PALETTE@).contains_key(FIELD_PALETTE@[29].0 as u32) && FIELD_PALETTE@[29].0 == 'k');
        assert(code_map(FIELD_PALETTE@).contains_key(FIELD_PALETTE@[30].0 as u32) && FIELD_PALETTE@[30].0 == 'l');
        assert(code_map(FIELD_PALETTE@).contains_key(FIELD_PALETTE@[31].0 as u32) && FIELD_PALETTE@[31].0 == 'm');
        assert(code_map(FIELD_PALETTE@).contains_key(FIELD_PALETTE@[32].0 as u32) && FIELD_PALETTE@[32].0 == 'n');
        assert(code_map(FIELD_PALETTE@).contains_key(FIELD_PALETTE@[33].0 as u32) && FIELD_PALETTE@[33].0 == 'o');
        assert(code_map(FIELD_PALETTE@).contains_key(FIELD_PALETTE@[34].0 as u32) && FIELD_PALETTE@[34].0 == 'p');
        assert(code_map(FIELD_PALETTE@).contains_key(FIELD_PALETTE@[35].0 as u32) && FIELD_PALETTE@[35].0 == 'q');
    }
    let ghost before = vid@.world;
    vid.initializeFieldData(&FIELD_PALETTE, &FIELD_ROWS);
    proof {
        assert forall|y: int| 0 <= y < str_views(FIELD_ROWS@).len() implies all_coded(
            code_map(FIELD_PALETTE@),
            #[trigger] str_views(FIELD_ROWS@)[y],
        ) by {
            assert(str_views(FIELD_ROWS@)[y] == FIELD_ROWS@[y]@);
        }
        assert forall|i: int| 0 <= i < FIELD_PALETTE@.len() implies (#[trigger] FIELD_PALETTE@[i]).1 <= 35 by {}
        lemma_code_map_at_most(FIELD_PALETTE@, 35);
        crate::gfx::lemma_paint_rows_len(before, code_map(FIELD_PALETTE@), str_views(FIELD_ROWS@));
        if tiles_at_most(before, 35) {
            lemma_paint_rows_at_most(before, code_map(FIELD_PALETTE@), str_views(FIELD_ROWS@), 35);
        }
    }
    offsets
}
} // verus!
