//! A verified model of the room pallet and of the test networks of its node.
//!
//! Players deposit into a room; the room starts when a second player joins, and
//! once its play time and delay have passed, the block hook pays every player
//! back a share of their deposit that depends on the result recorded for them.
pub mod chain_laws;
pub mod chain_spec;
pub mod keymap;
pub mod keys;
pub mod laws;
pub mod pallet;
pub mod pot;
pub mod types;
