# pallet_room

A verified library for the room game of an Octopus appchain and for the test
networks of its node.

- `src/pallet.rs`: the room pallet's storage (`Pallet`, seen as `PalletView`),
  its calls `create_new_room` and `join_room` (which record their events),
  its block hook `on_initialize` and its genesis configuration. Transfers of the currency are actions that
  the runtime performs; the calls take their outcome as an argument.
- `src/laws.rs`: what holds across calls: well-formed storage is kept, rooms
  start with their second player, refusals change nothing, ended and missing
  rooms are refused as such, rewards never exceed deposits and grow with deposit
  and result, and the hook pays each room once.
- `src/keymap.rs`: the ordered association lists behind the storage maps.
- `src/pot.rs`, `src/keys.rs`: the calls into `frame-support`, `sp-runtime` and
  `sp-core` (the pot account, development keys).
- `src/chain_spec.rs`: development keys, chain properties and the genesis of the
  development and local test networks, as plain values.
- `app/lib.rs`: the FRAME pallet that stores the values and calls the library.
