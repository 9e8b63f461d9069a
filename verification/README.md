# storage_continuity

Proof-of-storage continuity: provers keep hash chains of physical-access
commitments over data they store in a prover-specific encoding, blocks pick
chunks deterministically from their hashes, chains are grouped into regions
whose proofs roll up into a global root, and VDFs tie the proofs to time.

- `src/` is the library, verified with Verus. Every public function states
  what it returns in its contract; the laws of the system (encoding round
  trips, chain validity under appends, acceptance of well-linked proof
  windows, a hierarchical root that does not depend on input order, group
  membership and capacities, wire format round trips, VDF signing and
  shared-proof chains, challenge issuance and authenticity, acceptance of
  generated enhanced commitments) are stated in contracts or as public
  proof functions.
  Calls into hashing, signature and Merkle crates go through the trusted
  items of `src/crypto.rs`; `serde_json` parses the `.hashchain` records
  through `src/json.rs`, and `src/header.rs` reads the file format.
- `app/` is the code around it: files and memory maps, writing JSON
  records, the clock, threads, network latency measurements, floating-point statistics
  and logging.
- `tests/` exercises the library.
