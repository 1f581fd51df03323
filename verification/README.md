# bank_files

The logic behind the management window of a personal-finance app: the
editable rules, budgets and field names, their forms and bulk edits, the
processing queue of configuration changes, and the texts the window shows.

- `src/` is the library, written in Verus. Each public function states what
  it returns or changes, and Verus proves it. Decimal arithmetic, decimal
  parsing and formatting come from `rust_decimal`; the export file's time
  stamp comes from `chrono`. Those calls sit behind small trusted wrappers
  in `src/decimal.rs`, `src/text.rs` and `src/snapshot.rs`, whose doc
  comments say what is assumed of them.
- `app/` holds what stays outside the proofs: file access, floating-point
  geometry, and the loop that runs the processing queue.
- `tests/` runs the library with the real outside crates.
