# chiral_network

The verified core of a Chiral network node, written in Verus.

- `src/` is the library. Every function of it is verified except the small
  trusted wrappers in `hashing` and `text` that call the outside crates and
  std, whose contracts are taken on trust:
  - `ed2k_link`, `ed2k_handler`, `ed2k_transfer`, `registry`: ed2k links
    (parsing, generation, chunking, integrity checks), the bookkeeping of
    downloads and seeded files, and the steps of a transfer, with laws on
    pausing, resuming, cancelling, seeding and completing.
  - `account`, `hashing`: Ethereum accounts from secp256k1 keys; the digests,
    hex coding and key arithmetic come from the `md4`, `sha2`, `sha3`, `hex`
    and `secp256k1` crates behind small trusted wrappers.
  - `rpc`, `chain`, `diagnostics`, `wide`: reading Geth's JSON-RPC answers,
    block walks and transaction scans, incremental counting of mined blocks,
    256-bit wei amounts, and the network report.
  - `geth`: decisions around the local Geth process and its log.
  - `text`: the string and number arithmetic the rest is stated over.
- `tests/` runs the library on concrete values.
- `app/` is the unverified shell: HTTP calls, files, processes, signing with
  `ethers`, the ed2k transfer tasks, and everything that computes in floating
  point.
