# Code Grabber

Code Grabber (`cg`) turns a local repository into one plain-text bundle for a
language model: a header, a repository map, a manifest of included and
excluded files, and one delimited block per included file. Noise is left out
by default (dependencies, build output, tests, lockfiles, generated, binary
and secret-like files), and tokens are estimated with `tiktoken-rs`.

## Layout

- `src/` is the library, written in Verus. The decisions of a scan are made
  and proved here:
  - `classify`: what kind a file is and whether it goes in, and why;
  - `sanitize`: newline normalization, trailing whitespace, inline Rust tests,
    blank lines, `//` comments;
  - `extract`, `tokenize`: decoding a file's bytes and counting its tokens;
  - `bundle`, `scan`, `format`, `report`: the per-file steps of a scan, the
    scan itself one read at a time (which file to read next, what to make of
    it), the report and the bundle text;
  - `config`, `options`, `globs`, `paths`, `discover`: settings, profile and
    command-line options, glob sets, paths and walk candidates;
  - `console`, `display`, `tables`, `numbers`: what the programs show;
  - `desktop`: the desktop window's job steps (starting a scan, a bundle run
    or the profile, and taking the worker's answer).
  The contracts state results over spec functions. What outside code
  computes is named rather than computed: the token counts of `tiktoken-rs`,
  whether an encoding succeeds and its error message, what a `globset` set
  matches, Unicode lower case. The laws (`law_*` proof functions) state what holds across
  calls, such as every file being reported exactly once and the manifest
  listing exactly the bundled files in path order. The command line does
  the reads a scan asks for; a mode saved in the profile is kept unless
  `--mode` is given.
- `app/` is the `cg` command line: argument parsing, the file-system walk,
  reading and writing files, the TOML profile and the clipboard. There is no
  desktop binary here: the window's drawing, worker threads and file dialogs
  need `eframe` and `rfd`, which this crate does not depend on; only the
  window's decisions are in `src/desktop.rs`, `src/options.rs` and
  `src/tables.rs`.
- `tests/` runs the library on concrete inputs.
