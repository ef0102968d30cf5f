# ix_schema

A meta-interface for data structures: a type publishes a **manifest** — its
fields, memory layout, variants and schema evolution — and drivers read it.

`src/` is the verified library:

- `manifest` — the manifest types; top-level padding (`packed_field_bytes`,
  `padding_bytes`, `is_gap_free`) and layout compatibility (`extends`), with
  its laws (reflexive, transitive, append-only extension).
- `model` — what the `Ix` derive reads off a declaration: attribute parsing,
  validation (`StructModel::analyze`), doc capture, the migration plan
  (`field_init`), the evolution record (`field_change`) and the lowering to a
  manifest from the compiler's layout figures (`StructModel::expand`).
- `jsonschema` — a JSON Schema (Draft 2020-12) document from a manifest,
  specified exactly over a mathematical JSON model, and its text read back
  as the same document.
- `driver`, `serde_driver`, `postcard_driver`, `toml_driver` — the capability
  gate, the version-tagged envelope and each codec driver's errors.
- `migrate` — the `MigrateFrom`/`Upgrade` traits.
- `text` — Unicode trimming, decimal rendering and index parsing.

`app/` holds the unverified rest: the derive as a `syn`/`quote`
token-stream function, the serde/postcard/TOML codecs around the envelope,
zerocopy byte views, chain wiring, and an end-to-end example.
