# cobalt

A Minecraft: Java Edition 1.8 server whose protocol, world and session logic
is written in Verus and proved against its contracts.

- `src/` is the verified library:
  - `varint`, `bytes`, `text`, `encoding`, `serialize`, `wire`: the wire
    format of the protocol's values, with their encodings stated as spec
    functions and read-back laws for integers and strings;
  - `packet`, `codex`, `crypto`: packets, their frames and compression, the
    frame decoder of a connection, session encryption and the login hash;
  - `sdk`, `types`, `net_server`, `net_client`: the game's enums and the
    packets that the server sends and reads;
  - `world`, `chunk`, `chunk_builder`: chunk keys and regions, region
    offset tables, chunk columns with their block access and the
    `ChunkData` payload, and a flat test world;
  - `states`, `context`, `entity_manager`, `player_store`, `cache`,
    `config`, `mojang`: what each connection state does with a packet, the
    frames a connection sends, entity ids, change tracking and defaults.
- `app/` is the program around it: sockets, files, the configuration files,
  the session server, the shared caches and the connection loop.
- `tests/` runs the library on concrete values.
