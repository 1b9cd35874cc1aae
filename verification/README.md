# gitless_sync

A read-only comparison of a local directory with a GitHub repository
(through the `gh` CLI), whose decisions are written in Verus and proved
against their contracts.

Layout:

- `src/` — the verified library: the 4-state classification and its
  `presence` / `diff_meaningful` facts, the short-circuit cascade (case and
  NFD collisions, Windows path limits, submodules, symlinks, LFS,
  `.gitattributes`), size gates, text normalization and git blob ids, the
  `gh` argument lists and the decoding of their answers, GraphQL alias
  batching, rename hints, the report's projection and the `diff` / `init`
  outputs. `src/laws.rs` (and `law_*` functions beside the code they speak
  of) state properties of the library as a whole.
- `app/` — the `gitless-sync` binary: command-line parsing, the `gh`
  subprocess, the file system walk and reads, JSON in and out.
- `tests/` — tests of the library on concrete values.
