# octos_app

The verified core of the Octos app client, written in Verus, and a thin
headless client around it.

## Layout

- `src/` — the library; every function in it is verified.
  - `reducer.rs`, `state.rs` — the app state and the reducer that folds
    server notifications, snapshots, navigation, connection events and
    toasts into it; `records.rs`, `approvals.rs`, `toasts.rs`, `ids.rs`,
    `notification.rs` hold what it stores and reads.
  - `agent.rs` — the chat agent's id bookkeeping and the translation of
    transport events into chat events.
  - `connection.rs`, `backoff.rs` — decisions of the WebSocket loop:
    routing, cursors, request ids, replies, frames, reconnect pacing.
  - `capability.rs`, `cursor.rs`, `transport.rs`, `protocol.rs` — protocol
    types: capability negotiation, cursor store, tokens and ids.
  - `chat.rs`, `a2app.rs`, `login.rs` — the chat surface's data, A2App card
    text processing and prompt composition, and sign-in decisions.
  - `laws.rs` — properties that span several operations.
  - `text.rs`, `search.rs`, `numfmt.rs`, `json.rs`, `keys.rs`, `strmap.rs`,
    `keyed.rs` — strings, search and trimming, number text, the JSON model
    and the ordered maps the rest is built on.
- `tests/` — tests of the library.
- `app/` — a headless client: the WebSocket runtime (tokio and
  tokio-tungstenite), JSON conversion, the saved-card files and a
  standard-input chat loop.
