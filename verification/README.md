# AstroFetch

AstroFetch prints a compact summary of the machine next to procedural
astrophysical art (spiral and elliptical galaxies, stellar clusters,
starfields) in the terminal.

## Layout

- `src/` is the verified library, checked by Verus. Nearly every function carries a
  contract and the properties the program relies on are stated and proved
  as lemmas:
  - `seed`, `hash`: deterministic feature seeds and per-cell hashes;
  - `topology`: terminal-cell sampling shapes and the sampling geometry;
  - `display_plan`, `layout`: art dimensions for a terminal and the
    composition of art and information columns;
  - `ansi`, `color`, `render`, `starfield`: line builders, palettes, the
    renderers that turn classified cells into lines, star twinkling and
    collision-free star motion;
  - `animation`: the intro's fit checks, frame text, interrupt lifecycle and
    replay state machine;
  - `setup_shell`: editing the managed startup block of shell files;
  - `app`, `cli`, `engine`, `error`, `terminal`, `text`: application
    decisions, option validation, scene resolution, errors, widths and text
    helpers.
- `tests/` exercises the library.
- `app/` is the executable around it: command-line parsing, terminal and file
  I/O, the Ctrl+C handler, system information, and the floating-point
  density models, whose classified samples the library draws.
