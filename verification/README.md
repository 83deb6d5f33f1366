# must

The Must document system: documents travel as JSON between Pars
(programmable argument relays) and Fits (functionally isolated tasks), along
strands of logic, and every document is checked against a JSON spec (a
JahSpec) on its way.  Documents are stored as pretty JSON slices of an
append-only file, under a Must: a random key plus the time stamp of the
version.

## Layout

- `src/` — the verified library.
  - `json`, `json_text`: JSON values, objects with map semantics, and their
    pretty text.
  - `jah_args`, `jah_spec`: typed access to arguments, and the spec check
    (`check_args`) with the laws that say what an accepted set of args is.
  - `bootstrap`: the built-in specs, rule keys and error documents.
  - `must`, `must_order`: Must keys, their JSON form and their order.
  - `fit`, `par`, `parts`: Fit arguments and errors, the relay's decisions
    (spawn cap, timing), the registry of Pars.
  - `strand`, `transcriptor`: the Ribosome that walks strands and the
    Transcriptor that feeds it, cutting each Fit's args out of its arg bank.
  - `fits`: DocSlicePrep, FileAppendJSON, FileAppendSlice, FileGetSlice,
    StatelyTester; `err_fit`, `stately`, `must_bank`, `jah_mut`, `lurker`.
- `app/` — the running system: threads, channels and files around the
  library.
- `tests/` — tests of the library, including the whole system run in one
  thread with an in-memory file.
