# avail-light-core

The core of a light client's peer-to-peer node: the in-memory stores, and what the node decides
about itself and its peers.

- `src/` is the library, verified with Verus. What it takes from `libp2p`, `semver`, `hex`,
  `multihash` and `serde_json` stands behind small functions whose contracts are trusted; each says
  which function it calls and what it claims of it.
- `app/` is ordinary Rust around the library: the stores behind `libp2p`'s interfaces, the shared
  database, and the swarm. It does not link WebRTC itself: `init` is handed what makes the transport
  that stands beside TCP.
- `tests/` runs the library with the real crates.
