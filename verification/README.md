# Verified maze-chase game logic

A terminal arcade game in the style of a maze chase: a runner eats pills in a
tile maze while four chasers hunt it. The library in `src/` holds the game's
logic with contracts proved by Verus; `app/` is the thin program around it
(command line, keyboard thread, timing, terminal output).

Layout of `src/`:

- `util.rs` — the xorshift generator, the moving average, reading the terminal
  size from the command line.
- `gfx.rs` — positions on a torus (`Mvec`), sprites, and the graphics state:
  picture memory, the tile world, the views and the frame buffer.
- `raster.rs` — what a drawn frame holds, pixel by pixel, and the lemmas that
  the rasteriser's proof uses.
- `term_out.rs` — the terminal escape sequences that bring a terminal up to
  date with the frame buffer.
- `data.rs` — the pictures, palettes and maze of the game, and loading them.
- `moves.rs` — directions, distances, the runner's choice of direction and the
  chasers' random wandering.
- `game.rs` — the chasers, the runner and the game: one step of the game,
  drawing a frame, the keyboard, and what every step keeps (`game_inv`).
