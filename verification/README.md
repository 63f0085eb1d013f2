# tet_query

Verified query core for `.tet` tensor files: query documents (JSON and TOML), their
validation and wire encoding, read-plan decoding into logical row-major buffers, execution
budgets and device routing, partial-reduction geometry, CLI query history, and the text
reports of catalogs and query responses.

## Layout

- `src/` — the library, written in Verus. Executable functions carry `requires` / `ensures`
  contracts over spec functions and views; laws that relate several functions are
  public proof functions (`lemma_*`). Calls into `serde_json` and `toml` go through small
  trusted wrappers whose contracts are stated next to them.
- `tests/` — ordinary Rust tests that run the compiled library on concrete values.
- `app/` — thin host code around the library: files, environment, memory maps, platform
  directories, the host-memory check and JSON text.

Not here: reading a `.tet` catalog, building read plans, decoding zstd chunk payloads, and
the floating-point execution engine (reductions, statistics, transforms and the formatting
of their results). Planning therefore takes the catalog summary and the read plan as
arguments, and zstd-compressed chunks are refused with an error.

## Main modules

| module | what it holds |
| --- | --- |
| `document`, `document_wire` | parsing a query document from JSON/TOML text, validation |
| `wire_encode`, `wire_keys` | encoding a document in the flat wire format (reads back) |
| `types`, `json`, `text` | the data model, JSON trees, character-level helpers |
| `budget`, `device`, `fold_policy`, `spill_policy` | execution budgets, device routes, I/O policy, spill roots |
| `chunk_decode`, `dense_visit`, `indexing`, `dispatch`, `linear_scan` | decoding planned chunks into logical order |
| `partial_geometry`, `reduction` | axis layouts of partial reductions, preview routes |
| `history` | the CLI query history model (append, list, get) |
| `info`, `info_report` | catalog listings, filters and the `info` report |
| `response`, `query_output`, `preview_text` | query responses, their one-line and table text, integer preview samples |
| `float_bits` | IEEE-754 predicates and percent conversions on bit patterns |
