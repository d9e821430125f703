# voxel_core

Verified core of a small networked voxel sandbox (a game server and a Bevy
client), written in Verus.

- `src/` — the library, verified by Verus:
  - `chunk`: chunk keys, block coordinates, the block layout of a chunk and
    terrain columns;
  - `mesh`: the visible faces of a chunk as triangle geometry;
  - `blocks`: the block definition table and its lookups;
  - `browser`: the list of servers found on the local network;
  - `cache`: chunk-keyed hash maps, the client's chunk store and the
    entities that draw chunks and players, and the server's set of
    generated chunks, with discovery of the chunks around players;
  - `physics`: block and collision queries against cached chunks, and how a
    blocked step resolves;
  - `protocol`: protocol constants, input flags and client messages;
  - `text`: character classes, trimming, decimal numbers and port parsing;
  - `ui`: the client's menu, chat and connection state machine;
  - `storage`: database settings, URLs, schema statements and the steps of
    connecting.
- `tests/` — tests of the library on concrete values.
- `app/` — the programs: networking, rendering, floating-point physics,
  noise-based terrain heights and database I/O, calling the library.
