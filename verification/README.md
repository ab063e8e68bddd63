# neqst_core

The core of the NeQST office node, written in Verus: field encryption,
remote-access tokens and client admission, document metadata, the background
task runs, the bring-up of the LibreOfficeKit runtime, and the JSON-RPC method
logic of the local WebSocket endpoint. Each function carries a contract that
Verus proves; calls into outside crates (base64, BLAKE3, ChaCha20-Poly1305,
Ed25519, the OS random generator) stand behind small trusted wrappers whose
contracts say what those crates do.

Layout:

- `src/` — the verified library (`lib.rs` and its modules).
- `tests/` — tests of the library, run with the outside crates linked.
- `app/` — the node program around the library: the axum WebSocket server,
  the SurrealDB store, the worker loop, the forensic log and the
  LibreOfficeKit foreign interface. It performs the I/O that the library's
  functions and state machines ask for.
