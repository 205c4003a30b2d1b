# toolbench

A verified library for an engineering toolbench: a text-search front end
and a bushing interference-fit workbench.

- `src/` is the library, written in Verus. Every function carries a
  contract, which Verus proves except for the few small functions that
  call a standard-library routine it has no specification for: the
  search form's rules (what may run, what
  a progress report changes, how settings are kept and restored), recent
  searches and presets, results paging and keyboard selection, match
  highlighting, the extension statistics, the command palette, the
  command-line decisions and its interactive wizard, the folders a scan
  leaves out (the fast re-search index among them), drag-and-drop, the
  large-report warning, the command line's search settings, CSV
  catalog parsing, unit families, rounding rules and the material table. Laws that relate several functions are
  public proof functions (`lemma_*`).
- `tests/` runs the library on concrete values.
- `app/` is ordinary Rust around the library: the floating-point
  calculation engine of the bushing workbench and its section drawings,
  unit conversion and rounding of `f64` values, the serde forms of the
  settings, the report time stamp, the file-system watcher, and the
  command line's flags (clap) and prompts (dialoguer).
