# kotoba

A content-addressed knowledge-graph node: quads and datoms keyed by
content identifiers, Datalog views over them, an agent that reasons in
ReAct cycles, capability checks on CACAO signatures, and the XRPC surface
of the node. The library is written in Verus: each public function states
its behaviour in `requires`/`ensures`, and Verus proves it.

## Layout

- `src/` — the verified library.
  - `cid`, `base32`, `ipfs`, `codec` — identifiers, their text forms, and
    the encodings (base64, hex, multibase, JSON strings) used around them.
  - `quad`, `datom`, `datalog`, `mv`, `quad_store`, `commit`, `prolly` —
    the graph data model, the arrangement of datoms, Datalog evaluation,
    materialised views, per-graph stores and commit heads.
  - `kse`, `store`, `source_chain`, `warrant` — the journal, shelf and
    vault; block stores; agents' append-only chains.
  - `runtime`, `vm` — host state and gas accounting for guest programs,
    Datalog execution and invocation dispatch.
  - `agent` — ReAct sessions, prompts, tools and the two runners.
  - `cacao` — CACAO capabilities: the signed message, signature checks,
    delegation chains.
  - `server`, `client`, `net`, `ip`, `llm`, `sparql` — request handling
    decisions of the node, the command line client's URLs and tokens,
    gossip topics, addresses, model weights and embeddings, SPARQL patterns.
  - `keymap`, `text`, `debug_text` — a verified key-value map, text
    utilities, and the `Debug` texts of identifiers, objects and chain contents.
- `tests/` — tests of the library.
- `app/` — the program: command line, HTTP server, sled storage, journal
  broadcasting, and the serde forms of the library's types.

Outside crates are called from `src/` behind small trusted wrappers, each
with a doc comment saying what its contract claims of the crate.

## Outside crates standing in for missing parts

- `k256` (secp256k1 public-key recovery) and `sha3` (Keccak-256) serve the
  `eip191` CACAO signature check: recovering the signer's Ethereum address.
- `multibase` decodes the base58btc key of a `did:key` issuer and writes
  base58btc CIDv0 texts.
- Identifiers are written in multibase base32 (`b…`) by the library's own
  verified encoder in `base32`.
