# librenet

Verified core of Librenet, a peer-to-peer mesh network, written in Verus.

- `src/` is the library. Its functions are verified against their
  contracts, except the small trusted wrappers (marked
  `#[verifier::external_body]`) through which it calls AES-GCM, ed25519,
  the random number generators, SHA-256, hex encoding and Reed-Solomon
  encoding; their contracts are believed, not proved:
  - `garlic`: multi-hop AES-256-GCM wrapping and one-layer unwrapping;
    wrapping is proved to be undone by peeling the layers in hop order.
  - `verification`: hardware-attestation check, the bisection game that
    locates the step where solver and challenger diverge, and the
    redundancy check.
  - `storage`: replication and Reed-Solomon sharding, the lazy-recovery
    repair rule and content identifiers (hex of SHA-256).
  - `poc`: three-lane blocks, inference tasks and the trust filter of the
    NetFlow reputation.
  - `identity`, `lns`, `mesh`, `manifest`: peer identities, name records,
    the swarm loop's decisions and the application manifest.
- `tests/` exercises the library.
- `app/` is the daemon around it: the libp2p swarm, the TUN adapter, the
  WebAssembly runtime, floating-point credit accounting and JSON encoding.

The WebAssembly runtime in `app/runtime.rs` is written against wasmtime,
which is not among the dependencies declared in `Cargo.toml`; that module
does not build until wasmtime is added.
