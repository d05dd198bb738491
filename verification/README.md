# lekalo_core

The verified core of Lekalo's contract tooling, written in Verus.

- `src/` is the library, every function verified against its contract:
  diagnostics, their registry, and normalized result sets, data
  classification and policy attachments, the data-flow analysis and its report,
  the context capsule (budget walk, gaps, and its JSON and Markdown projections), the cache eviction
  order, the cache keys and records, and contracted mode (declaration
  parsing, registry update, attachments, the conformance check, and the
  decisions around the persisted registry bytes).
- `tests/` exercises the library on concrete inputs.
- `app/` is the filesystem shell: it reads and writes the registry with
  serde and hands the library plain values.

Maps keyed by text (the diagnostic registry's entries, a diagnostic's
data object and provider metadata) are held as vectors of pairs rather
than as ordered maps, so that contracts can speak of them as sequences.
The registry's rule ids are proved strictly increasing, so each id is
registered once; data objects and metadata are written in key order by
their producers, and the JSON writer orders object keys by their bytes.
