# bench_from_rpc

Fetches a mainnet block over RPC, replays it, and writes the inputs that
benchmarks of the block run on: the RLP blob for the zig-evm guest, the bincode
input for the RSP client, and a sidecar with the state that the block leaves the
touched accounts in.

- `src/` is the verified library. It holds the RLP encoder, the fork schedule,
  the trie witness walk, the pre-state filter, the layout of the blob and of the
  sidecar, and the state root comparison. Verus proves each of them against its
  contract. Header and transaction encodings, block hashes, the bytes of 256-bit
  numbers, bytecode and hexadecimal digits come from other crates, behind small
  trusted functions.
- `app/` is the program around it: arguments, RPC, block execution and files.
- `tests/` runs the library on concrete values.

Only blocks from Cancun on have a blob.
