# lighthouse_proofs

Execution-proof management for a beacon node, written in Verus: the data
availability checker and its state machines, proof caches and stores,
proof-request tracking, broadcast bookkeeping, proven-chain tracking, and the
decisions of a stateless execution layer that validates payloads by proofs
from several subnets.

Layout:

- `src/` — the verified library. Every public function states its result in
  its contract; the laws of the library (read-after-write for stores and
  caches, capacity bounds, terminal states, round trips) are public proof
  functions beside the code they speak of. Calls into `lru`, `rand`,
  `ssz_types`, `tree_hash` and the clock go through small trusted wrappers
  whose contracts say what those crates document.
- `tests/` — tests of the library on concrete values.
- `app/` — the asynchronous runtime around the library: serialisable forms of
  its values, displayable error types, and the services (broadcaster, cache
  maintenance, stateless execution layer) that sleep, send and await while
  the library decides.
