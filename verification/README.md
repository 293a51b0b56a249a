# pl3xus

A networking library for message passing between a server and its clients,
with a client-side synchronization layer, written as a Verus crate.

- `src/` is the verified library: the length-prefixed packet framing and its
  codecs, message names and schema hashes, control and notification types,
  and the client's bookkeeping (shared subscriptions, the component store,
  mutation and request tracking, the query cache and invalidation counters,
  packet routing). Each public function states its result in `ensures`, and
  the laws that relate several calls are public proof functions (`law_*`).
- `app/` is ordinary Rust around it: serde forms of the shared types, the
  message traits (which name types through `std::any`), the codec trait
  impls, the process-wide notification counter, the TCP transport and the
  type-erased component registry.
- `tests/` runs the library on concrete values.

The calls into bincode and the standard hasher go through a few trusted
wrappers in `src/frame.rs` and `src/names.rs`; their doc comments say what is
assumed of the outside code.
