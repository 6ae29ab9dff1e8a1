# iroh-drop-core

Hand files to people with one string. Everyone who receives them helps serve them.

This crate is the part of iroh-drop that decides: what a ticket looks like in pasted text,
which files of a directory are shared and where the members of a collection may be written,
how a pick is resolved, what the daemon answers, whom it asks for consent, what the command
line and the window say. Public functions have contracts, which Verus proves; what other
crates do is believed as stated where they are called.

What only the outside world can do stands around it: `app/` is the program, with its
sockets, files, terminal and window. It performs what the library asks for and hands the
outcome back.

| Path | What |
|---|---|
| `src/text.rs`, `order.rs`, `table.rs`, `path.rs`, `size.rs`, `json.rs` | the vocabulary: texts, orders, tables, paths, sizes, JSON values |
| `src/ticket.rs`, `ids.rs`, `error.rs` | tickets in pasted text and links, names of blobs and peers, errors |
| `src/collections.rs`, `inventory.rs` | directory trees, numbered listings and picks |
| `src/config.rs`, `rooms.rs`, `nearby.rs`, `persist.rs` | where things live, saved drops, drops nearby, what survives a restart |
| `src/frame.rs`, `bus.rs`, `asks.rs`, `service.rs`, `transport.rs`, `dropd.rs` | the daemon and its control API |
| `src/client.rs`, `commands.rs`, `cli.rs`, `terminal.rs`, `qr.rs` | clients: the command line |
| `src/bridge.rs`, `window.rs` | clients: the window |
| `src/mcp.rs` | clients: the server for agents |
| `src/presence.rs`, `web.rs` | presence beacons, the peer in a browser |

Where the library relies on another crate, a small function with a trusted contract makes
the call: `serde_json` reads and writes values, `toml` reads and writes settings and rooms,
`postcard` packs frames, `qrcode` makes codes, and the standard library quotes and checks text.
