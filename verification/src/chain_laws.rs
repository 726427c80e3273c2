//! What the test networks hold, stated over the keys `sp_core` derives from the
//! development seeds.
use vstd::prelude::*;

use crate::chain_spec::{
    default_endowed_seeds, default_endowment_derivable, is_default_endowment, seed_account,
    is_development_config, is_local_testnet_config, is_properties, is_seed_authority,
    seed_key, seed_keys_derivable, AuthorityKeys, ChainSpecPlan, ChainType, GenesisPlan, KeyScheme,
    PropertyValue,
};
use crate::keys::{ecdsa_public_of, ed25519_public_of, sr25519_public_of};
use crate::types::{AccountId, Balance};

verus! {

/// The sr25519 key of the development seed `seed`, derived from `//seed`.
pub open spec fn sr_key(seed: Seq<char>) -> Seq<u8> {
    sr25519_public_of("//"@ + seed).unwrap()
}

/// The ed25519 key of the development seed `seed`, derived from `//seed`.
pub open spec fn ed_key(seed: Seq<char>) -> Seq<u8> {
    ed25519_public_of("//"@ + seed).unwrap()
}

/// The ecdsa key of the development seed `seed`, derived from `//seed`.
pub open spec fn ec_key(seed: Seq<char>) -> Seq<u8> {
    ecdsa_public_of("//"@ + seed).unwrap()
}

/// Chain properties naming the token `symbol`, its `decimals` and the SS58
/// format `ss58`, in that order.
pub open spec fn properties_are(p: Seq<(String, PropertyValue)>, symbol: Seq<char>, decimals: u32, ss58: u32) -> bool {
    &&& p.len() == 3
    &&& p[0].0@ == "tokenSymbol"@
    &&& (p[0].1 matches PropertyValue::Text(t) && t@ == symbol)
    &&& p[1].0@ == "tokenDecimals"@
    &&& p[1].1 == PropertyValue::Number(decimals)
    &&& p[2].0@ == "ss58Format"@
    &&& p[2].1 == PropertyValue::Number(ss58)
}

/// The `i`-th validator of `g` is the development seed `seed` with stake
/// `stash`: its account, controller and five session keys are the seed's keys.
pub open spec fn validator_is_seed(g: GenesisPlan, i: int, seed: Seq<char>, stash: Balance) -> bool {
    let e = g.session_keys@[i];
    &&& g.validators@[i].0@ == sr_key(seed)
    &&& g.validators@[i].1 == stash
    &&& e.0@ == sr_key(seed)
    &&& e.1@ == sr_key(seed)
    &&& e.2.babe@ == sr_key(seed)
    &&& e.2.grandpa@ == ed_key(seed)
    &&& e.2.im_online@ == sr_key(seed)
    &&& e.2.beefy@ == ec_key(seed)
    &&& e.2.octopus@ == sr_key(seed)
}

/// The appchain settings shared by both test networks.
pub open spec fn appchain_settings_are(g: GenesisPlan, beat: Balance) -> bool {
    &&& g.anchor_contract@ == ""@
    &&& g.asset_id_by_token_id@.len() == 1
    &&& g.asset_id_by_token_id@[0].0@ == "usdn.testnet"@
    &&& g.asset_id_by_token_id@[0].1 == 0
    &&& g.premined_amount == 87_500_000 * beat
    &&& g.era_payout == 4_657 * beat
}

proof fn lemma_validator_is_seed(g: GenesisPlan, i: int, seed: Seq<char>, stash: Balance)
    requires
        0 <= i < g.session_keys@.len(),
        0 <= i < g.validators@.len(),
        seed_keys_derivable(seed),
        g.validators@[i].0@ == crate::chain_spec::seed_account(seed),
        g.validators@[i].1 == stash,
        crate::chain_spec::is_seed_session_entry(g.session_keys@[i], seed),
    ensures
        validator_is_seed(g, i, seed, stash),
{
}

/// With no endowment given, Alice, Bob, Charlie, Dave, Eve and Ferdie are
/// endowed, in that order, with nothing.
pub proof fn default_endowment_is_six_empty_dev_accounts(e: Seq<(AccountId, Balance)>)
    requires
        is_default_endowment(e),
        default_endowment_derivable(),
    ensures
        e.len() == 6,
        e[0].0@ == sr_key("Alice"@),
        e[1].0@ == sr_key("Bob"@),
        e[2].0@ == sr_key("Charlie"@),
        e[3].0@ == sr_key("Dave"@),
        e[4].0@ == sr_key("Eve"@),
        e[5].0@ == sr_key("Ferdie"@),
        forall|i: int| 0 <= i < 6 ==> #[trigger] e[i].1 == 0,
{
    let d = default_endowed_seeds();
    assert(e[0].0@ == seed_account(d[0]));
    assert(e[1].0@ == seed_account(d[1]));
    assert(e[2].0@ == seed_account(d[2]));
    assert(e[3].0@ == seed_account(d[3]));
    assert(e[4].0@ == seed_account(d[4]));
    assert(e[5].0@ == seed_account(d[5]));
}

/// `get_properties` gives the token symbol, then the decimals, then the SS58
/// format, under those names.
pub proof fn properties_name_their_values(p: Seq<(String, PropertyValue)>, symbol: Seq<char>, decimals: u32, ss58: u32)
    requires
        is_properties(p, symbol, decimals, ss58),
    ensures
        properties_are(p, symbol, decimals, ss58),
{
}

/// The keys made from a development seed are its sr25519 key as account, BABE,
/// im-online and Octopus key, its ed25519 key for GRANDPA and its ecdsa key for
/// BEEFY.
pub proof fn seed_authority_uses_seed_keys(k: AuthorityKeys, seed: Seq<char>, stash: Balance)
    requires
        is_seed_authority(k, seed, stash),
        seed_keys_derivable(seed),
    ensures
        k.account@ == sr_key(seed),
        k.babe@ == sr_key(seed),
        k.grandpa@ == ed_key(seed),
        k.im_online@ == sr_key(seed),
        k.beefy@ == ec_key(seed),
        k.octopus@ == sr_key(seed),
        k.stash == stash,
{
}

/// The development network: named "Development" with id "dev", protocol
/// "beat-development", the BEAT token with 18 decimals and SS58 format 42; Alice
/// validates with 50 000 OCT and holds the root key; Alice is endowed with
/// 12 500 000 BEAT and Bob with 10 000 000 BEAT.
pub proof fn development_network(r: Result<ChainSpecPlan, String>, w: &[u8], beat: Balance, octs: Balance)
    requires
        is_development_config(r, Some(w), beat, octs),
        seed_keys_derivable("Alice"@),
        seed_key(KeyScheme::Sr25519, "Bob"@) is Some,
        50_000 * octs <= u128::MAX,
        87_500_000 * beat <= u128::MAX,
    ensures
        r matches Ok(c) && {
            &&& c.name@ == "Development"@
            &&& c.id@ == "dev"@
            &&& c.chain_type == ChainType::Development
            &&& c.boot_nodes@.len() == 0
            &&& (c.protocol_id matches Some(p) && p@ == "beat-development"@)
            &&& c.fork_id is None
            &&& (c.properties matches Some(p) && properties_are(p@, "BEAT"@, 18, 42))
            &&& c.genesis.code@ == w@
            &&& (c.genesis.sudo_key matches Some(k) && k@ == sr_key("Alice"@))
            &&& c.genesis.balances@.len() == 2
            &&& c.genesis.balances@[0].0@ == sr_key("Alice"@)
            &&& c.genesis.balances@[0].1 == 12_500_000 * beat
            &&& c.genesis.balances@[1].0@ == sr_key("Bob"@)
            &&& c.genesis.balances@[1].1 == 10_000_000 * beat
            &&& c.genesis.validators@.len() == 1
            &&& c.genesis.session_keys@.len() == 1
            &&& validator_is_seed(c.genesis, 0, "Alice"@, (50_000 * octs) as Balance)
            &&& appchain_settings_are(c.genesis, beat)
        },
{
    let c = r->Ok_0;
    let p = c.properties->Some_0;
    properties_name_their_values(p@, "BEAT"@, 18, 42);
    let auths = seq![("Alice"@, (50_000 * octs) as Balance)];
    let endowed = seq![("Alice"@, (12_500_000 * beat) as Balance), ("Bob"@, (10_000_000 * beat) as Balance)];
    assert(auths[0].0 == "Alice"@);
    assert(endowed[0].0 == "Alice"@);
    assert(endowed[1].0 == "Bob"@);
    let g = c.genesis;
    assert(g.balances@[0].0@ == sr_key("Alice"@));
    assert(g.balances@[1].0@ == sr_key("Bob"@));
    assert(g.balances@[0].1 == 12_500_000 * beat);
    assert(crate::chain_spec::is_seed_session_entry(g.session_keys@[0], "Alice"@));
    lemma_validator_is_seed(g, 0, "Alice"@, (50_000 * octs) as Balance);
    assert(appchain_settings_are(g, beat));
    assert(properties_are(p@, "BEAT"@, 18, 42));
}

/// The local test network: named "Local Testnet" with id "local_testnet",
/// protocol "beat-local", the BEAT token with 18 decimals and SS58 format 42;
/// Alice and Bob validate with 50 000 OCT each and Alice holds the root key;
/// Alice is endowed with 12 499 990 BEAT and Bob with 10 BEAT.
pub proof fn local_testnet_network(r: Result<ChainSpecPlan, String>, w: &[u8], beat: Balance, octs: Balance)
    requires
        is_local_testnet_config(r, Some(w), beat, octs),
        seed_keys_derivable("Alice"@),
        seed_keys_derivable("Bob"@),
        50_000 * octs <= u128::MAX,
        87_500_000 * beat <= u128::MAX,
    ensures
        r matches Ok(c) && {
            &&& c.name@ == "Local Testnet"@
            &&& c.id@ == "local_testnet"@
            &&& c.chain_type == ChainType::Local
            &&& c.boot_nodes@.len() == 0
            &&& (c.protocol_id matches Some(p) && p@ == "beat-local"@)
            &&& c.fork_id is None
            &&& (c.properties matches Some(p) && properties_are(p@, "BEAT"@, 18, 42))
            &&& c.genesis.code@ == w@
            &&& (c.genesis.sudo_key matches Some(k) && k@ == sr_key("Alice"@))
            &&& c.genesis.balances@.len() == 2
            &&& c.genesis.balances@[0].0@ == sr_key("Alice"@)
            &&& c.genesis.balances@[0].1 == 12_499_990 * beat
            &&& c.genesis.balances@[1].0@ == sr_key("Bob"@)
            &&& c.genesis.balances@[1].1 == 10 * beat
            &&& c.genesis.validators@.len() == 2
            &&& c.genesis.session_keys@.len() == 2
            &&& validator_is_seed(c.genesis, 0, "Alice"@, (50_000 * octs) as Balance)
            &&& validator_is_seed(c.genesis, 1, "Bob"@, (50_000 * octs) as Balance)
            &&& appchain_settings_are(c.genesis, beat)
        },
{
    let c = r->Ok_0;
    let p = c.properties->Some_0;
    properties_name_their_values(p@, "BEAT"@, 18, 42);
    let auths = seq![("Alice"@, (50_000 * octs) as Balance), ("Bob"@, (50_000 * octs) as Balance)];
    assert(auths[0].0 == "Alice"@);
    assert(auths[1].0 == "Bob"@);
    let endowed = seq![("Alice"@, (12_499_990 * beat) as Balance), ("Bob"@, (10 * beat) as Balance)];
    assert(endowed[0].0 == "Alice"@);
    assert(endowed[1].0 == "Bob"@);
    let g = c.genesis;
    assert(crate::chain_spec::is_seed_session_entry(g.session_keys@[0], "Alice"@));
    lemma_validator_is_seed(g, 0, "Alice"@, (50_000 * octs) as Balance);
    assert(crate::chain_spec::is_seed_session_entry(g.session_keys@[1], "Bob"@));
    lemma_validator_is_seed(g, 1, "Bob"@, (50_000 * octs) as Balance);
    assert(g.balances@[0].0@ == sr_key("Alice"@));
    assert(g.balances@[1].0@ == sr_key("Bob"@));
    assert(g.balances@[0].1 == 12_499_990 * beat);
    assert(g.balances@[1].1 == 10 * beat);
    assert(appchain_settings_are(g, beat));
    assert(properties_are(p@, "BEAT"@, 18, 42));
}

} // verus!
