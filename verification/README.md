# synesthesia

Sound and image from one point in a large parameter space, steered from the
keyboard: like, dislike, surprise, undo. The point is a genome of a few
hundred genes; the sound is rendered by formula generators and an effects
chain, the picture is a Gray–Scott field drawn in half-block characters.

## Layout

- `src/` — the verified library: the exact logic of the program, each
  function with its contract.
  - `rng` — the `mulberry32` core, the generator seeds, the point hash.
  - `formula`, `lfo` — generator and LFO-shape names; the integer bytebeat.
  - `fx` — filter types and effect switches; `schema`, `genes` — the gene
    list's index tables, the modulation targets, which change is shown how.
  - `explorer` — the search history behind like / dislike / surprise / undo.
  - `session` — what a key does to the screen and which work it asks for.
  - `tui` — the key map, the picture modes, the colour mapping and the
    cell layout; `sim` — grid sizes, refresh timing, the image;
    `rounding` — the rounding of doubles, done exactly in integers.
  - `share` — `#s=` point tokens; `cli` — the command line; `sink` — the
    player command lines; `wav` — WAV framing; `store` — kept points;
    `fft` — transform sizes; `text` — character-level helpers.
- `tests/` — tests of the library on concrete values.
- `app/` — the program around it: files, threads, the terminal, and the
  floating-point synthesis, analysis and simulation.

The program reads its schema and presets (`schema.json`, `presets.json`)
from `$SYN_ASSETS`, or from `assets/` in the working directory.
