# akareko

A peer-to-peer node for sharing manga indexes, chapters, users and posts.
Nodes sign what they publish with Ed25519 keys, exchange it in a compact
binary wire format, and sync with each other by sending Bloom filters of
what they already hold.

The library under `src/` is written in Verus and verified:

- `helpers/byteable.rs` and the `Byteable` impls beside each type: the wire
  format, with a read-back law for every type that can be read back;
- `types/`, `db/`: keys, hashes, topics, timestamps, and the signed records
  (users, indexes, contents, posts) with what their signatures cover;
- `server/`: the request/response protocol, the command handlers' decisions
  (who answers what, which items are kept or refused) and the sync reading;
- `helpers/bloom_filter.rs`: what a filter leaves out of a listing;
- `db/schedule.rs`, `daemon/`: the sync scheduler and the manager's decisions;
- `config.rs`: the node's configuration and the user's settings.

Outside crates (sha2, ed25519-dalek, base64, data-encoding,
unicode-normalization, fastbloom, rand) are called through small trusted
wrappers whose contracts are stated in `crypto.rs`, `encoding.rs`,
`helpers.rs` and `helpers/bloom_filter.rs`; the standard library's clock
and UTF-8 conversion are wrapped in `types/timestamp.rs` and
`helpers/strings.rs`.

`app/` is the executable around the library: configuration files (TOML),
the serde form of filters, an in-memory store, the TCP connections between
nodes and the manager's event loop.
