# poa

Proof of Access for a weave of stored data, verified with Verus.

- `src/challenge.rs` — hashing the seed `depth` times (BLAKE2b-256 from
  `sp-io`) and choosing the recall byte of the weave.
- `src/index.rs` — the ordered index of blocks and of a block's extrinsics by
  weave position, the search for the entry that holds a byte, and the laws that
  tie them together.
- `src/digest.rs` — header digest logs and the weave size they carry
  (SCALE-decoded with `parity-scale-codec`).
- `src/builder.rs` — the proof builder as a state machine: it asks for chain
  data and decides, depth by depth, until it finds the recall transaction or
  gives up.
- `src/poa.rs` — the proof types and the retry over depths.
- `src/weights.rs` — the pallet's weight functions.
- `app/` — the loop that reads the chain for the builder, and the error type
  with its `std::error::Error` impl.
