# zap_wasm

The ZAP protocol client, verified with Verus.

- `src/` is the verified library:
  - `wire.rs`: the binary frame (`ZAP\x01`, a type byte, the payload) and its inverse.
  - `protocol.rs`: the codec: binary frames or the text envelope `{"t":..,"d":..}`, and decoding.
  - `text.rs`: decimal and hexadecimal numerals, JSON string quoting, JSON objects and arrays.
  - `client.rs`: client settings, the handshake, and the JSON texts of requests and browser commands.
  - `session.rs`, `pending.rs`, `handlers.rs`: message routing, the connection attempt, the
    requests in flight and the event subscriptions.
  - `ident.rs`: request and client identifiers.
  - `codes.rs`: client kinds, message types and browser actions and their codes.
  - `json.rs`: the trusted calls into `serde_json` and std's UTF-8 decoding.
  - `messages.rs`: the shapes of the payloads.
- `app/` holds the WebAssembly bindings: JavaScript values, the WebSocket, promises and
  callbacks, the clock and the random draw.
- `tests/` runs the library on concrete values.
