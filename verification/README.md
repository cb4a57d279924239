# pumpkin_java_multiversion

A library that lets Java Edition clients from 1.16.2 up join a server on the
newest protocol, by rewriting the packets between them, written in Verus:
every function in `src/` carries a contract, and Verus proves each one.

## Layout

- `src/version.rs`: the client versions and their order.
- `src/codec.rs`, `src/nbt.rs`: the wire encodings (`VarInt`s, fixed width
  integers, length prefixed runs) and the measure of an NBT document.
- `src/data/`: id tables between versions and their composition, entity
  types, tracked entity data indices and entity data serializers.
- `src/api/`: the wire types, the packet wrapper a translation step works
  on, the per connection state, entity data and item stacks, and the
  rewriters (`rewriter/`) for chat, blocks, particles, statistics, screens,
  commands, item shapes and components, and the NBT form item stacks take
  below 1.20.5 (`rewriter/item_nbt.rs`).
- `src/packet/`: per packet rewrites: chunks in the newest and the legacy
  layouts, block updates, entity spawns, tags, scores, the join and
  respawn packets and the status response.
- `src/pipeline/`: the passes every packet goes through: the id pass, the
  item pass, and the walk over the chain of version steps (`chain.rs`).
- `src/hooks.rs`: what the host's packet hooks do with a packet, by the
  client's version and the connection state.
- `app/`: the plugin around the library: the host's event hooks, the per
  connection state they share and what needs the host's own crates.

The library takes the data it is driven by as arguments: the id tables
between versions, the newest registries (components, particles,
enchantments, entity types), the packet the payload belongs to and the
chain of steps with their handlers. The packet id tables and the step
definitions are not part of this repository, so the hooks in `app/` refuse
clients below the floor and rewrite the status response, but leave every
other packet as the server wrote it.
- `tests/`: tests of the library through its public items.

Specifications are written over plain values: bytes as `Seq<u8>`, stacks as
`ItemView`, a rewrite of a packet as the bytes it reads and writes. A law
that relates several functions stands as a public proof function whose name
starts with `law_`.
