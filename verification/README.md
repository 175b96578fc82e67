# rag

A retrieval-augmented-generation service core: documents are chunked,
embedded and stored in a Qdrant collection, scoped by tenant and namespace,
and searched through a canonical REST API, a LibreChat-compatible legacy API
and an MCP (JSON-RPC) endpoint.

The library under `src/` is written in Verus and proved against its contracts:

- `text` — whitespace, trimming, numerals and other character-level helpers.
- `chunking` — fixed-size overlapping character windows, with laws that the
  windows reassemble into the text and overlap as configured.
- `domain` — identifiers, scopes, requests, stored chunk records, errors.
- `query` — scope access, `k` normalisation and the search a query becomes.
- `identity` — chunk digests (SHA-256, hex) and name-based point ids (UUID v5).
- `ingest` — content checks, grouping for embedding and storage, the stored
  records, and the totals reported back.
- `extract` — pass-through extraction, source location and size limits,
  decoding by media type, and host-path remapping for a containerised gateway.
- `storage` — collection configuration and checks, payloads, scope filters,
  point planning and per-asset summaries.
- `http`, `legacy`, `mcp` — the rules of the three front ends: where scope and
  identity come from, which requests are refused, and what replies hold.
- `providers` — adapters whose back ends are still pending.
- `config` — reading the settings from the environment's values.

`app/` is the program around it (axum routing, Qdrant and HTTP calls,
concurrency, serde shapes); `tests/` exercises the library on concrete values.
