//! The account of the room pot, derived from the pallet identifier.
use vstd::prelude::*;

use crate::types::AccountId;
use frame_support::sp_runtime::traits::AccountIdConversion;

verus! {

/// The bytes of the account that `frame_support::PalletId(id)` converts into:
/// the type tag `modl`, the eight bytes of the identifier, then zeroes up to 32 bytes.
pub open spec fn pallet_account_bytes(id: Seq<u8>) -> Seq<u8> {
    seq![109u8, 111u8, 100u8, 108u8] + id + Seq::new(20, |i: int| 0u8)
}

/// Calls `AccountIdConversion::into_account_truncating` on `frame_support::PalletId`
/// for an `AccountId32`. Its source encodes `(*b"modl", id)` (twelve bytes) and
/// decodes the account from them followed by trailing zeroes; the contract states
/// exactly that.
#[verifier::external_body]
pub(crate) fn pallet_account(id: [u8; 8]) -> (a: AccountId)
    ensures
        a@ == pallet_account_bytes(id@),
{
    let account: frame_support::sp_runtime::AccountId32 =
        frame_support::PalletId(id).into_account_truncating();
    account.into()
}

} // verus!
