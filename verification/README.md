# moda_core

The core of a modular browser engine built on least privilege, written in
Verus: every function of the library carries a contract that Verus proves.

Layout:

- `src/lifecycle.rs` — the run/shutdown lifecycle of the managers, and its laws.
- `src/architecture.rs` — the core architecture and the components it drives.
- `src/security.rs` — capability tokens (issue, verify, revoke) and access policies.
- `src/sandbox.rs` — sandbox configurations, the sandbox state machine and its manager.
- `src/ipc.rs` — signed IPC channels with capability checks, their registry, and
  the sandbox-to-sandbox transport; `src/ipc/` holds its base64 text, the byte
  format of messages, the repeating-key cipher, and the numbered channels.
- `src/clock.rs`, `src/text.rs` — the clock and small string helpers.
- `app/main.rs` — the program: logging, start-up, signal handling, spawning and
  killing processes, waiting on queues, and the JSON form of IPC messages.
- `tests/` — scenarios and checks of the laws on concrete values.
