# emacs_reporter

Collects Emacs process metrics on macOS into a local SQLite database, and
ships a merge tool and an uploader for the collected databases.

- `src/` is the verified library (Verus): turning kernel records into metric
  rows, the per-process baselines that sample deltas are measured against,
  VM-region aggregation, process discovery decisions, ELPA package parsing
  and ids, and the checks, SQL and naming used by the uploader and the merge
  tool. Calls into `bzip2`, `uuid`, `chrono`, `getrandom` and a few std
  functions sit behind small trusted wrappers whose contracts are documented
  where they are declared.
- `app/` is the program around it: the sampling loop, SQLite, the Mach,
  libproc and CoreGraphics calls, the network, and the command lines. The
  same binary runs the merge tool or the uploader when invoked as
  `emacs-report-merge` or `emacs-report-uploader`.
- `tests/` exercises the library on concrete values.
