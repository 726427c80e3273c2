//! Development keys, derived by `sp_core` from secret URIs.
use vstd::prelude::*;

use crate::types::AccountId;
use sp_core::Pair;
use sp_runtime::traits::IdentifyAccount;

verus! {

/// The public key that `sp_core::sr25519::Pair::from_string(suri, None)` derives,
/// or `None` where it refuses the URI.
pub uninterp spec fn sr25519_public_of(suri: Seq<char>) -> Option<Seq<u8>>;

/// The public key that `sp_core::ed25519::Pair::from_string(suri, None)` derives,
/// or `None` where it refuses the URI.
pub uninterp spec fn ed25519_public_of(suri: Seq<char>) -> Option<Seq<u8>>;

/// The compressed public key that `sp_core::ecdsa::Pair::from_string(suri, None)`
/// derives, or `None` where it refuses the URI.
pub uninterp spec fn ecdsa_public_of(suri: Seq<char>) -> Option<Seq<u8>>;

/// Calls `sp_core::sr25519::Pair::from_string(suri, None)` and takes the public
/// key of the pair. The contract names the 32 bytes of that key, a function of the
/// URI alone (the derivation is deterministic); nothing more is claimed of them.
#[verifier::external_body]
pub(crate) fn sr25519_public(suri: &str) -> (r: Option<[u8; 32]>)
    ensures
        match r {
            Some(k) => sr25519_public_of(suri@) == Some(k@),
            None => sr25519_public_of(suri@) is None,
        },
{
    match sp_core::sr25519::Pair::from_string(suri, None) {
        Ok(pair) => Some(pair.public().0),
        Err(_) => None,
    }
}

/// Calls `sp_core::ed25519::Pair::from_string(suri, None)` and takes the public
/// key of the pair; the contract names its 32 bytes, as for sr25519.
#[verifier::external_body]
pub(crate) fn ed25519_public(suri: &str) -> (r: Option<[u8; 32]>)
    ensures
        match r {
            Some(k) => ed25519_public_of(suri@) == Some(k@),
            None => ed25519_public_of(suri@) is None,
        },
{
    match sp_core::ed25519::Pair::from_string(suri, None) {
        Ok(pair) => Some(pair.public().0),
        Err(_) => None,
    }
}

/// Calls `sp_core::ecdsa::Pair::from_string(suri, None)` and takes the public
/// key of the pair; the contract names its 33 compressed bytes, as for sr25519.
/// Only URIs that start with `/` are admitted: they derive from the development
/// phrase, while a `0x` hex seed would reach a secret that the crate refuses
/// with a panic (a zero seed).
#[verifier::external_body]
pub(crate) fn ecdsa_public(suri: &str) -> (r: Option<[u8; 33]>)
    requires
        suri@.len() > 0,
        suri@[0] == '/',
    ensures
        match r {
            Some(k) => ecdsa_public_of(suri@) == Some(k@),
            None => ecdsa_public_of(suri@) is None,
        },
{
    match sp_core::ecdsa::Pair::from_string(suri, None) {
        Ok(pair) => Some(pair.public().0),
        Err(_) => None,
    }
}

/// Calls `IdentifyAccount::into_account` on the `sp_runtime::MultiSigner` of an
/// sr25519 public key. Its source makes the account of the key's 32 bytes
/// unchanged; the contract says so.
#[verifier::external_body]
pub(crate) fn sr25519_account(public: [u8; 32]) -> (a: AccountId)
    ensures
        a == public,
{
    let signer = sp_runtime::MultiSigner::from(sp_core::sr25519::Public::from_raw(public));
    signer.into_account().into()
}

} // verus!
