# Lynx element bridge — verified core

A Verus library for mounting Rust UI frameworks into Lynx's Fiber DOM through
a native renderer C ABI, with the bridge's logic proved against its contracts.

## Layout

- `src/` — the verified library.
  - `ids`, `text`, `tree`, `attributes` — identifiers, statuses, commands and
    batches; string helpers; the node-tree model; a small attribute map.
  - `session`, `owned` — the session that validates every mutation against
    its tree and records it as a command, and the session bound to the thread
    that created it, which refuses every other thread first.
  - `host` — an in-memory host that applies command batches (`HostFake`).
  - `mirror` — the replay relation between a session and a host that applies
    its batches, and the laws that every session operation keeps it.
  - `native` — the bookkeeping and decisions of an acquired native renderer.
  - `registry`, `lifecycle` — native session tokens, owner threads, the
    session registry, and the mount / dispatch / replace / destroy / abandon
    flows as state machines.
  - `guest`, `wamr`, `preflight` — the WASM guest ABI runtime, the checks a
    WAMR host makes on a guest, and the preflight stages with what each
    failure releases.
  - `protocol`, `recording` — the JSON mutation protocol and the recording
    renderer backend.
  - `cssc`, `cssbuild`, `devserver` — the stylesheet converter, the
    stylesheet build checks and the development server's decisions.
- `tests/` — tests of the library on concrete values.
- `app/` — the embedding: C ABI, threads and panics, serialisation, files,
  processes, the WAMR C API and the development server's I/O.

## Not part of this crate

- The FlatBuffers wire codec (envelopes, command, result and event
  encodings, `verify`, `WireError`) and the FlatBuffers guest protocol: their
  generated schema code is not available to build against.  The embedding
  encodes guest requests and responses with postcard instead
  (`app/guest_codec.rs`), which is not wire-compatible with FlatBuffers.
- The Yew and Dioxus adapters and runtimes, which implement those
  frameworks' renderer traits.
