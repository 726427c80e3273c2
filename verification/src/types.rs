//! The plain values that the room pallet stores, takes and hands back.
use vstd::prelude::*;

verus! {

/// Index of a room.
pub type Id = u32;

/// An account: the 32 bytes of an `AccountId32`.
pub type AccountId = [u8; 32];

/// An amount of the pallet's currency.
pub type Balance = u128;

/// A block height.
pub type BlockNumber = u32;

/// The constants the pallet is configured with.
#[derive(Clone, Copy, Debug)]
pub struct Config {
    /// The identifier from which the account of the room pot is derived.
    pub pallet_id: [u8; 8],
}

/// A room: who opened it, when it started, how long it runs, what it holds.
#[derive(Clone, Copy, Debug)]
pub struct Room {
    pub creator: AccountId,
    pub id_room: Id,
    pub start: BlockNumber,
    pub length: BlockNumber,
    pub delay: BlockNumber,
    pub total_value: Balance,
    pub is_started: bool,
    pub is_ended: bool,
}

/// Why the pallet refuses a call.
#[derive(Clone, Copy, Debug, PartialEq, Eq, Structural)]
pub enum Error {
    /// Room doesn't exist
    RoomNotExist,
    /// Maximum participants
    RoomOverload,
    /// Room started already
    RoomAlreadyStarted,
    /// Room ended already
    RoomAlreadyEnded,
    /// User has already joined
    UserAlreadyJoined,
}

/// Why a dispatched call failed: a bad origin, a refusal of this pallet, or
/// the error with which the currency refused a transfer.
#[derive(Debug, PartialEq, Eq)]
pub enum DispatchError<E> {
    BadOrigin,
    Module(Error),
    Currency(E),
}

/// Who dispatched a call.
#[derive(Clone, Copy, Debug)]
pub enum Origin {
    Root,
    Signed(AccountId),
    Unsigned,
}

/// The events the calls deposit.
#[derive(Clone, Copy, Debug, PartialEq, Eq)]
pub enum Event {
    /// Create new room (id_room, who)
    CreateRoom { id_room: u32, creator: AccountId },
    /// Who join in room (id_room, who, amount deposited)
    JoinRoom { id_room: u32, user: AccountId, deposit_amount: u32 },
}

/// A transfer of the currency that the pallet asks the runtime to make.
#[derive(Clone, Copy, Debug)]
pub struct Transfer {
    pub from: AccountId,
    pub to: AccountId,
    pub amount: Balance,
}

/// The signer of a signed origin; every other origin is refused.
pub open spec fn spec_ensure_signed<E>(origin: Origin) -> Result<AccountId, DispatchError<E>> {
    match origin {
        Origin::Signed(who) => Ok(who),
        _ => Err(DispatchError::BadOrigin),
    }
}

/// The signer of a signed origin, or `BadOrigin`.
pub fn ensure_signed<E>(origin: &Origin) -> (r: Result<AccountId, DispatchError<E>>)
    ensures
        r == spec_ensure_signed::<E>(*origin),
{
    match origin {
        Origin::Signed(who) => Ok(*who),
        _ => Err(DispatchError::BadOrigin),
    }
}

} // verus!
