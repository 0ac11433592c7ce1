# whispernet

The protocol core of a small Tor-based messenger, verified with Verus.

- `src/wire.rs`, `src/handshake.rs`, `src/message.rs`: the wire format of
  handshakes and payloads, with encoder and decoder proved to be inverse.
- `src/keys.rs`: the key bundle a node publishes.
- `src/ratchet.rs`: the HKDF root-key ratchet step.
- `src/base32.rs`: RFC 4648 base32 as a statement, with its decoding lemmas.
- `src/onion.rs`: version 3 onion addresses and their laws.
- `src/inbound.rs`: the listener's decision on a received payload.
- `src/command.rs`: the interactive prompt's commands.
- `src/storage.rs`: the statements of the encrypted ledger.
- `src/primitives.rs`: the calls into the cryptography and encoding crates,
  with the contracts the library relies on.
- `app/`: the node itself (database, Tor client, listener, prompt).
