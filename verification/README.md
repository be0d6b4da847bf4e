# yah

A deterministic run kernel and its durability harness, written in Rust and verified with Verus.

- `src/ids.rs`, `src/error.rs`, `src/text.rs`, `src/json.rs`, `src/table.rs`: the vocabulary.
- `src/store.rs`, `src/store/schema.rs`, `src/graph.rs`: the rows of a control graph, the holder
  fence, the cursor allocator, the authority claim, and the closed schemas.
- `src/effect.rs`, `src/cancel.rs`: effect intents and frozen cancellation scopes.
- `src/funnel.rs` and below: the single mutation funnel. A command is staged, the durable engine
  commits what it writes, and the engine's answer finishes it. `funnel/laws.rs` states what holds
  of every submission.
- `src/provider.rs` and below: normalization of two provider stream dialects, and a scripted fake.
- `src/protocol.rs` and below: the JSON boundary, receipts, tokens, resumption and durable
  subscriptions. `protocol/laws.rs` states that a subscription delivers every event once, in order
  and without a gap.
- `src/harness.rs` and below: the seeded workload, the commit decisions of the harness store, the
  auditor, and the verdicts of the kill trials.
- `app/`: the binary around the library (processes, files, threads, the graph engine).

The durable engine, clocks and processes are outside the library: what they answer enters as an
argument, and every contract holds for each answer.
