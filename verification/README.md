# monkey

A networked cube-fighting game built on Bevy and Lightyear. The game's
rules and configuration are a Verus-verified library (`src/`); the Bevy
systems, plugins and I/O that run them are in `app/`.

- `src/private_key.rs` reads a netcode private key from text such as
  `1,2,...,32`, with proofs that non-digit characters are ignored and that a
  key written out in decimal reads back unchanged.
- `src/text.rs` splits strings at a separator, as `str::split` does.
- `src/player.rs` holds the actions and their input bindings, the hue a peer
  is coloured with, and random cube colours.
- `src/protocol.rs` lists the components the protocol replicates.
- `src/server.rs` sets up the server (certificate names, netcode key,
  listening address), decides which clients predict or interpolate a new
  player, matches cameras to players and plans each fixed update's movement.
- `src/client.rs` sets up the client connection.
- `src/net.rs` holds peer identities, addresses and network targets.
