//! The development and local test networks: their keys, accounts, balances and
//! appchain settings, as plain values from which the node builds its chain spec.
use vstd::prelude::*;
use vstd::string::StringExecFns;

use crate::keys::{
    ecdsa_public, ecdsa_public_of, ed25519_public, ed25519_public_of, sr25519_account,
    sr25519_public, sr25519_public_of,
};
use crate::types::{AccountId, Balance};

verus! {

/// The key schemes of the session keys.
#[derive(Clone, Copy, Debug, PartialEq, Eq, Structural)]
pub enum KeyScheme {
    Sr25519,
    Ed25519,
    Ecdsa,
}

/// A public key of one of the schemes.
#[derive(Clone, Copy, Debug)]
pub enum PublicKey {
    Sr25519([u8; 32]),
    Ed25519([u8; 32]),
    Ecdsa([u8; 33]),
}

pub open spec fn public_key_scheme(k: PublicKey) -> KeyScheme {
    match k {
        PublicKey::Sr25519(_) => KeyScheme::Sr25519,
        PublicKey::Ed25519(_) => KeyScheme::Ed25519,
        PublicKey::Ecdsa(_) => KeyScheme::Ecdsa,
    }
}

pub open spec fn public_key_bytes(k: PublicKey) -> Seq<u8> {
    match k {
        PublicKey::Sr25519(b) => b@,
        PublicKey::Ed25519(b) => b@,
        PublicKey::Ecdsa(b) => b@,
    }
}

/// The secret URI of a development seed: `//` and the seed.
pub open spec fn dev_suri(seed: Seq<char>) -> Seq<char> {
    "//"@ + seed
}

/// The public key of `scheme` derived from a development seed, if any.
pub open spec fn seed_key(scheme: KeyScheme, seed: Seq<char>) -> Option<Seq<u8>> {
    match scheme {
        KeyScheme::Sr25519 => sr25519_public_of(dev_suri(seed)),
        KeyScheme::Ed25519 => ed25519_public_of(dev_suri(seed)),
        KeyScheme::Ecdsa => ecdsa_public_of(dev_suri(seed)),
    }
}

/// The account of a development seed: its sr25519 public key.
pub open spec fn seed_account(seed: Seq<char>) -> Seq<u8> {
    sr25519_public_of(dev_suri(seed)).unwrap()
}

/// Every session key can be derived from the seed.
pub open spec fn seed_keys_derivable(seed: Seq<char>) -> bool {
    &&& seed_key(KeyScheme::Sr25519, seed) is Some
    &&& seed_key(KeyScheme::Ed25519, seed) is Some
    &&& seed_key(KeyScheme::Ecdsa, seed) is Some
}

/// `//` followed by `seed`.
pub fn dev_uri(seed: &str) -> (s: String)
    ensures
        s@ == dev_suri(seed@),
        s@.len() > 0,
        s@[0] == '/',
{
    proof {
        reveal_strlit("//");
    }
    let mut s = "//".to_owned();
    s.append(seed);
    s
}

fn sr25519_from_seed(seed: &str) -> (k: [u8; 32])
    requires
        seed_key(KeyScheme::Sr25519, seed@) is Some,
    ensures
        seed_key(KeyScheme::Sr25519, seed@) == Some(k@),
{
    sr25519_public(dev_uri(seed).as_str()).unwrap()
}

fn ed25519_from_seed(seed: &str) -> (k: [u8; 32])
    requires
        seed_key(KeyScheme::Ed25519, seed@) is Some,
    ensures
        seed_key(KeyScheme::Ed25519, seed@) == Some(k@),
{
    ed25519_public(dev_uri(seed).as_str()).unwrap()
}

fn ecdsa_from_seed(seed: &str) -> (k: [u8; 33])
    requires
        seed_key(KeyScheme::Ecdsa, seed@) is Some,
    ensures
        seed_key(KeyScheme::Ecdsa, seed@) == Some(k@),
{
    ecdsa_public(dev_uri(seed).as_str()).unwrap()
}

/// Generate a public key of `scheme` from seed.
pub fn get_from_seed(seed: &str, scheme: KeyScheme) -> (k: PublicKey)
    requires
        seed_key(scheme, seed@) is Some,
    ensures
        public_key_scheme(k) == scheme,
        seed_key(scheme, seed@) == Some(public_key_bytes(k)),
{
    match scheme {
        KeyScheme::Sr25519 => PublicKey::Sr25519(sr25519_from_seed(seed)),
        KeyScheme::Ed25519 => PublicKey::Ed25519(ed25519_from_seed(seed)),
        KeyScheme::Ecdsa => PublicKey::Ecdsa(ecdsa_from_seed(seed)),
    }
}

/// Whether a public key of `scheme` can be generated from seed.
pub fn seed_key_available(seed: &str, scheme: KeyScheme) -> (b: bool)
    ensures
        b == (seed_key(scheme, seed@) is Some),
{
    let suri = dev_uri(seed);
    match scheme {
        KeyScheme::Sr25519 => sr25519_public(suri.as_str()).is_some(),
        KeyScheme::Ed25519 => ed25519_public(suri.as_str()).is_some(),
        KeyScheme::Ecdsa => ecdsa_public(suri.as_str()).is_some(),
    }
}

/// `get_from_seed` where the key can be derived; `None` where it cannot.
pub fn checked_get_from_seed(seed: &str, scheme: KeyScheme) -> (r: Option<PublicKey>)
    ensures
        r is Some <==> seed_key(scheme, seed@) is Some,
        r matches Some(k) ==> public_key_scheme(k) == scheme && seed_key(scheme, seed@) == Some(
            public_key_bytes(k),
        ),
{
    if seed_key_available(seed, scheme) {
        Some(get_from_seed(seed, scheme))
    } else {
        None
    }
}

/// Generate an account ID from seed.
pub fn get_account_id_from_seed(seed: &str) -> (a: AccountId)
    requires
        seed_key(KeyScheme::Sr25519, seed@) is Some,
    ensures
        a@ == seed_account(seed@),
{
    sr25519_account(sr25519_from_seed(seed))
}

/// The keys of a validator: its stash account, its session keys and its stake.
#[derive(Clone, Copy, Debug)]
pub struct AuthorityKeys {
    pub account: AccountId,
    pub babe: [u8; 32],
    pub grandpa: [u8; 32],
    pub im_online: [u8; 32],
    pub beefy: [u8; 33],
    pub octopus: [u8; 32],
    pub stash: Balance,
}

/// The keys that `authority_keys_from_seed(seed, stash)` gives.
pub open spec fn is_seed_authority(k: AuthorityKeys, seed: Seq<char>, stash: Balance) -> bool {
    &&& k.account@ == seed_account(seed)
    &&& Some(k.babe@) == seed_key(KeyScheme::Sr25519, seed)
    &&& Some(k.grandpa@) == seed_key(KeyScheme::Ed25519, seed)
    &&& Some(k.im_online@) == seed_key(KeyScheme::Sr25519, seed)
    &&& Some(k.beefy@) == seed_key(KeyScheme::Ecdsa, seed)
    &&& Some(k.octopus@) == seed_key(KeyScheme::Sr25519, seed)
    &&& k.stash == stash
}

/// Helper function to generate stash, controller and session key from seed
pub fn authority_keys_from_seed(seed: &str, stash_amount: Balance) -> (k: AuthorityKeys)
    requires
        seed_keys_derivable(seed@),
    ensures
        is_seed_authority(k, seed@, stash_amount),
{
    AuthorityKeys {
        account: get_account_id_from_seed(seed),
        babe: sr25519_from_seed(seed),
        grandpa: ed25519_from_seed(seed),
        im_online: sr25519_from_seed(seed),
        beefy: ecdsa_from_seed(seed),
        octopus: sr25519_from_seed(seed),
        stash: stash_amount,
    }
}

/// Whether every session key can be generated from seed.
pub fn seed_keys_available(seed: &str) -> (b: bool)
    ensures
        b == seed_keys_derivable(seed@),
{
    seed_key_available(seed, KeyScheme::Sr25519) && seed_key_available(seed, KeyScheme::Ed25519)
        && seed_key_available(seed, KeyScheme::Ecdsa)
}

/// The session keys of a validator.
#[derive(Clone, Copy, Debug)]
pub struct SessionKeys {
    pub babe: [u8; 32],
    pub grandpa: [u8; 32],
    pub im_online: [u8; 32],
    pub beefy: [u8; 33],
    pub octopus: [u8; 32],
}

pub fn session_keys(
    babe: [u8; 32],
    grandpa: [u8; 32],
    im_online: [u8; 32],
    beefy: [u8; 33],
    octopus: [u8; 32],
) -> (k: SessionKeys)
    ensures
        k == (SessionKeys { babe, grandpa, im_online, beefy, octopus }),
{
    SessionKeys { babe, grandpa, im_online, beefy, octopus }
}

/// A value of a chain property.
#[derive(Debug)]
pub enum PropertyValue {
    Text(String),
    Number(u32),
}

/// The chain properties: the token symbol, its decimals and the SS58 address format.
pub open spec fn is_properties(p: Seq<(String, PropertyValue)>, symbol: Seq<char>, decimals: u32, ss58format: u32) -> bool {
    &&& p.len() == 3
    &&& p[0].0@ == "tokenSymbol"@
    &&& p[0].1 matches PropertyValue::Text(t) && t@ == symbol
    &&& p[1].0@ == "tokenDecimals"@
    &&& p[1].1 == PropertyValue::Number(decimals)
    &&& p[2].0@ == "ss58Format"@
    &&& p[2].1 == PropertyValue::Number(ss58format)
}

/// Helper function to generate an properties
pub fn get_properties(symbol: &str, decimals: u32, ss58format: u32) -> (p: Vec<(String, PropertyValue)>)
    ensures
        is_properties(p@, symbol@, decimals, ss58format),
{
    let mut properties: Vec<(String, PropertyValue)> = Vec::new();
    properties.push(("tokenSymbol".to_owned(), PropertyValue::Text(symbol.to_owned())));
    properties.push(("tokenDecimals".to_owned(), PropertyValue::Number(decimals)));
    properties.push(("ss58Format".to_owned(), PropertyValue::Number(ss58format)));
    properties
}

/// Helper function to generate appchain config
pub fn appchain_config(
    anchor_contract: &str,
    asset_id_by_token_id: &str,
    premined_amount: Balance,
    era_payout: Balance,
) -> (c: (String, String, Balance, Balance))
    ensures
        c.0@ == anchor_contract@,
        c.1@ == asset_id_by_token_id@,
        c.2 == premined_amount,
        c.3 == era_payout,
{
    (anchor_contract.to_owned(), asset_id_by_token_id.to_owned(), premined_amount, era_payout)
}

/// The genesis storage of a test network that depends on its parameters. The
/// rest of the runtime's genesis is fixed: no BABE, GRANDPA or im-online
/// authorities, the runtime's BABE epoch configuration, and default settings for
/// the other pallets.
pub struct GenesisPlan {
    /// The runtime code.
    pub code: Vec<u8>,
    pub balances: Vec<(AccountId, Balance)>,
    /// Account, controller and session keys of each validator.
    pub session_keys: Vec<(AccountId, AccountId, SessionKeys)>,
    pub sudo_key: Option<AccountId>,
    pub anchor_contract: String,
    pub asset_id_by_token_id: Vec<(String, u32)>,
    pub validators: Vec<(AccountId, Balance)>,
    pub premined_amount: Balance,
    pub era_payout: Balance,
}

pub open spec fn authority_session_keys(k: AuthorityKeys) -> SessionKeys {
    SessionKeys { babe: k.babe, grandpa: k.grandpa, im_online: k.im_online, beefy: k.beefy, octopus: k.octopus }
}

/// The genesis that `testnet_genesis` builds from its arguments and an endowment.
pub open spec fn is_testnet_genesis(
    g: GenesisPlan,
    wasm: Seq<u8>,
    authorities: Seq<AuthorityKeys>,
    root: AccountId,
    endowed: Seq<(AccountId, Balance)>,
    anchor: Seq<char>,
    asset: Seq<char>,
    premined: Balance,
    era: Balance,
) -> bool {
    &&& g.code@ == wasm
    &&& g.balances@ == endowed
    &&& g.session_keys@ == authorities.map_values(
        |k: AuthorityKeys| (k.account, k.account, authority_session_keys(k)),
    )
    &&& g.sudo_key == Some(root)
    &&& g.anchor_contract@ == anchor
    &&& g.asset_id_by_token_id@.len() == 1
    &&& g.asset_id_by_token_id@[0].0@ == asset
    &&& g.asset_id_by_token_id@[0].1 == 0
    &&& g.validators@ == authorities.map_values(|k: AuthorityKeys| (k.account, k.stash))
    &&& g.premined_amount == premined
    &&& g.era_payout == era
}

/// The seeds of the accounts endowed by default.
pub open spec fn default_endowed_seeds() -> Seq<Seq<char>> {
    seq!["Alice"@, "Bob"@, "Charlie"@, "Dave"@, "Eve"@, "Ferdie"@]
}

/// The default endowment: each default account, with nothing.
pub open spec fn is_default_endowment(e: Seq<(AccountId, Balance)>) -> bool {
    &&& e.len() == 6
    &&& forall|i: int|
        0 <= i < 6 ==> #[trigger] e[i].0@ == seed_account(default_endowed_seeds()[i]) && e[i].1 == 0
}

/// The default accounts can all be derived.
pub open spec fn default_endowment_derivable() -> bool {
    forall|i: int| 0 <= i < 6 ==> seed_key(KeyScheme::Sr25519, #[trigger] default_endowed_seeds()[i]) is Some
}

fn default_endowment() -> (e: Vec<(AccountId, Balance)>)
    requires
        default_endowment_derivable(),
    ensures
        is_default_endowment(e@),
{
    assert(seed_key(KeyScheme::Sr25519, default_endowed_seeds()[0]) is Some);
    assert(seed_key(KeyScheme::Sr25519, default_endowed_seeds()[1]) is Some);
    assert(seed_key(KeyScheme::Sr25519, default_endowed_seeds()[2]) is Some);
    assert(seed_key(KeyScheme::Sr25519, default_endowed_seeds()[3]) is Some);
    assert(seed_key(KeyScheme::Sr25519, default_endowed_seeds()[4]) is Some);
    assert(seed_key(KeyScheme::Sr25519, default_endowed_seeds()[5]) is Some);
    let mut e: Vec<(AccountId, Balance)> = Vec::new();
    e.push((get_account_id_from_seed("Alice"), 0));
    e.push((get_account_id_from_seed("Bob"), 0));
    e.push((get_account_id_from_seed("Charlie"), 0));
    e.push((get_account_id_from_seed("Dave"), 0));
    e.push((get_account_id_from_seed("Eve"), 0));
    e.push((get_account_id_from_seed("Ferdie"), 0));
    e
}

/// Configure initial storage state for FRAME modules.
pub fn testnet_genesis(
    wasm_binary: &[u8],
    initial_authorities: Vec<AuthorityKeys>,
    root_key: AccountId,
    endowed_accounts: Option<Vec<(AccountId, Balance)>>,
    appchain_config: (String, String, Balance, Balance),
    _enable_println: bool,
) -> (g: GenesisPlan)
    requires
        endowed_accounts is None ==> default_endowment_derivable(),
    ensures
        is_testnet_genesis(
            g,
            wasm_binary@,
            initial_authorities@,
            root_key,
            g.balances@,
            appchain_config.0@,
            appchain_config.1@,
            appchain_config.2,
            appchain_config.3,
        ),
        match endowed_accounts {
            Some(e) => g.balances@ == e@,
            None => is_default_endowment(g.balances@),
        },
        g.session_keys@.len() == initial_authorities@.len(),
        g.validators@.len() == initial_authorities@.len(),
        forall|i: int|
            0 <= i < initial_authorities@.len() ==> {
                let k = #[trigger] initial_authorities@[i];
                let e = g.session_keys@[i];
                &&& e.0 == k.account
                &&& e.1 == k.account
                &&& e.2.babe == k.babe
                &&& e.2.grandpa == k.grandpa
                &&& e.2.im_online == k.im_online
                &&& e.2.beefy == k.beefy
                &&& e.2.octopus == k.octopus
                &&& g.validators@[i] == (k.account, k.stash)
            },
        g.sudo_key == Some(root_key),
{
    let ghost config = appchain_config;
    let endowed_accounts: Vec<(AccountId, Balance)> = match endowed_accounts {
        Some(e) => e,
        None => default_endowment(),
    };
    let mut validators: Vec<(AccountId, Balance)> = Vec::new();
    let mut keys: Vec<(AccountId, AccountId, SessionKeys)> = Vec::new();
    let mut i: usize = 0;
    while i < initial_authorities.len()
        invariant
            0 <= i <= initial_authorities@.len(),
            validators@ == initial_authorities@.take(i as int).map_values(
                |k: AuthorityKeys| (k.account, k.stash),
            ),
            keys@ == initial_authorities@.take(i as int).map_values(
                |k: AuthorityKeys| (k.account, k.account, authority_session_keys(k)),
            ),
        decreases initial_authorities@.len() - i,
    {
        let x = initial_authorities[i];
        validators.push((x.account, x.stash));
        keys.push((x.account, x.account, session_keys(x.babe, x.grandpa, x.im_online, x.beefy, x.octopus)));
        i = i + 1;
        assert(validators@ =~= initial_authorities@.take(i as int).map_values(
            |k: AuthorityKeys| (k.account, k.stash),
        ));
        assert(keys@ =~= initial_authorities@.take(i as int).map_values(
            |k: AuthorityKeys| (k.account, k.account, authority_session_keys(k)),
        ));
    }
    assert(initial_authorities@.take(initial_authorities@.len() as int) =~= initial_authorities@);
    let (anchor_contract, asset, premined_amount, era_payout) = appchain_config;
    let mut asset_id_by_token_id: Vec<(String, u32)> = Vec::new();
    asset_id_by_token_id.push((asset, 0));
    GenesisPlan {
        code: vstd::slice::slice_to_vec(wasm_binary),
        balances: endowed_accounts,
        session_keys: keys,
        sudo_key: Some(root_key),
        anchor_contract,
        asset_id_by_token_id,
        validators,
        premined_amount,
        era_payout,
    }
}

/// Whether every default account can be derived.
pub fn default_endowment_available() -> (b: bool)
    ensures
        b == default_endowment_derivable(),
{
    let b = seed_key_available("Alice", KeyScheme::Sr25519) && seed_key_available("Bob", KeyScheme::Sr25519)
        && seed_key_available("Charlie", KeyScheme::Sr25519) && seed_key_available("Dave", KeyScheme::Sr25519)
        && seed_key_available("Eve", KeyScheme::Sr25519) && seed_key_available("Ferdie", KeyScheme::Sr25519);
    proof {
        let d = default_endowed_seeds();
        assert(d[0] == "Alice"@ && d[1] == "Bob"@ && d[2] == "Charlie"@ && d[3] == "Dave"@ && d[4] == "Eve"@
            && d[5] == "Ferdie"@);
        if b {
            assert forall|i: int| 0 <= i < 6 implies seed_key(KeyScheme::Sr25519, #[trigger] d[i]) is Some by {
                if i == 0 {} else if i == 1 {} else if i == 2 {} else if i == 3 {} else if i == 4 {} else {}
            }
        } else {
            if default_endowment_derivable() {
                assert(seed_key(KeyScheme::Sr25519, d[0]) is Some);
                assert(seed_key(KeyScheme::Sr25519, d[1]) is Some);
                assert(seed_key(KeyScheme::Sr25519, d[2]) is Some);
                assert(seed_key(KeyScheme::Sr25519, d[3]) is Some);
                assert(seed_key(KeyScheme::Sr25519, d[4]) is Some);
                assert(seed_key(KeyScheme::Sr25519, d[5]) is Some);
            }
        }
    }
    b
}

/// `testnet_genesis` where it is given an endowment or every default account can
/// be derived; `None` where neither holds.
pub fn checked_testnet_genesis(
    wasm_binary: &[u8],
    initial_authorities: Vec<AuthorityKeys>,
    root_key: AccountId,
    endowed_accounts: Option<Vec<(AccountId, Balance)>>,
    appchain_config: (String, String, Balance, Balance),
    enable_println: bool,
) -> (r: Option<GenesisPlan>)
    ensures
        r is Some <==> (endowed_accounts is Some || default_endowment_derivable()),
        r matches Some(g) ==> {
            &&& is_testnet_genesis(
                g,
                wasm_binary@,
                initial_authorities@,
                root_key,
                g.balances@,
                appchain_config.0@,
                appchain_config.1@,
                appchain_config.2,
                appchain_config.3,
            )
            &&& match endowed_accounts {
                Some(e) => g.balances@ == e@,
                None => is_default_endowment(g.balances@),
            }
        },
{
    if endowed_accounts.is_some() || default_endowment_available() {
        Some(testnet_genesis(
            wasm_binary,
            initial_authorities,
            root_key,
            endowed_accounts,
            appchain_config,
            enable_println,
        ))
    } else {
        None
    }
}

/// The kind of a chain.
#[derive(Clone, Copy, Debug, PartialEq, Eq, Structural)]
pub enum ChainType {
    Development,
    Local,
    Live,
}

/// A chain spec as plain values: it has no telemetry endpoints and default extensions.
pub struct ChainSpecPlan {
    pub name: String,
    pub id: String,
    pub chain_type: ChainType,
    pub genesis: GenesisPlan,
    pub boot_nodes: Vec<String>,
    pub protocol_id: Option<String>,
    pub fork_id: Option<String>,
    pub properties: Option<Vec<(String, PropertyValue)>>,
}

/// The session keys and account of a validator derived from `seed`.
pub open spec fn is_seed_session_entry(e: (AccountId, AccountId, SessionKeys), seed: Seq<char>) -> bool {
    &&& e.0@ == seed_account(seed)
    &&& e.1@ == seed_account(seed)
    &&& Some(e.2.babe@) == seed_key(KeyScheme::Sr25519, seed)
    &&& Some(e.2.grandpa@) == seed_key(KeyScheme::Ed25519, seed)
    &&& Some(e.2.im_online@) == seed_key(KeyScheme::Sr25519, seed)
    &&& Some(e.2.beefy@) == seed_key(KeyScheme::Ecdsa, seed)
    &&& Some(e.2.octopus@) == seed_key(KeyScheme::Sr25519, seed)
}

/// A test network genesis whose validators, root and endowed accounts are
/// development seeds.
pub open spec fn is_seeded_genesis(
    g: GenesisPlan,
    wasm: Seq<u8>,
    authorities: Seq<(Seq<char>, Balance)>,
    root: Seq<char>,
    endowed: Seq<(Seq<char>, Balance)>,
    anchor: Seq<char>,
    asset: Seq<char>,
    premined: Balance,
    era: Balance,
) -> bool {
    &&& g.code@ == wasm
    &&& g.balances@.len() == endowed.len()
    &&& forall|i: int|
        0 <= i < endowed.len() ==> #[trigger] g.balances@[i].0@ == seed_account(endowed[i].0)
            && g.balances@[i].1 == endowed[i].1
    &&& g.session_keys@.len() == authorities.len()
    &&& g.validators@.len() == authorities.len()
    &&& forall|i: int|
        0 <= i < authorities.len() ==> is_seed_session_entry(
            #[trigger] g.session_keys@[i],
            authorities[i].0,
        ) && g.validators@[i].0@ == seed_account(authorities[i].0) && g.validators@[i].1
            == authorities[i].1
    &&& g.sudo_key matches Some(k) && k@ == seed_account(root)
    &&& g.anchor_contract@ == anchor
    &&& g.asset_id_by_token_id@.len() == 1
    &&& g.asset_id_by_token_id@[0].0@ == asset
    &&& g.asset_id_by_token_id@[0].1 == 0
    &&& g.premined_amount == premined
    &&& g.era_payout == era
}

/// What `development_config` gives for the runtime code `wasm_binary`, the unit
/// `beat` of the chain's token and the unit `octs` of OCT.
pub open spec fn is_development_config(
    r: Result<ChainSpecPlan, String>,
    wasm_binary: Option<&[u8]>,
    beat: Balance,
    octs: Balance,
) -> bool {
    match wasm_binary {
        None => r matches Err(e) && e@ == "Development wasm not available"@,
        Some(w) => r matches Ok(c) && {
            &&& c.name@ == "Development"@
            &&& c.id@ == "dev"@
            &&& c.chain_type == ChainType::Development
            &&& c.boot_nodes@.len() == 0
            &&& c.protocol_id matches Some(p) && p@ == "beat-development"@
            &&& c.fork_id is None
            &&& c.properties matches Some(p) && is_properties(p@, "BEAT"@, 18, 42)
            &&& is_seeded_genesis(
                c.genesis,
                w@,
                seq![("Alice"@, (50_000 * octs) as Balance)],
                "Alice"@,
                seq![("Alice"@, (12_500_000 * beat) as Balance), ("Bob"@, (10_000_000 * beat) as Balance)],
                ""@,
                "usdn.testnet"@,
                (87_500_000 * beat) as Balance,
                (4_657 * beat) as Balance,
            )
        },
    }
}

/// What `local_testnet_config` gives, as for `development_config`.
pub open spec fn is_local_testnet_config(
    r: Result<ChainSpecPlan, String>,
    wasm_binary: Option<&[u8]>,
    beat: Balance,
    octs: Balance,
) -> bool {
    match wasm_binary {
        None => r matches Err(e) && e@ == "Development wasm not available"@,
        Some(w) => r matches Ok(c) && {
            &&& c.name@ == "Local Testnet"@
            &&& c.id@ == "local_testnet"@
            &&& c.chain_type == ChainType::Local
            &&& c.boot_nodes@.len() == 0
            &&& c.protocol_id matches Some(p) && p@ == "beat-local"@
            &&& c.fork_id is None
            &&& c.properties matches Some(p) && is_properties(p@, "BEAT"@, 18, 42)
            &&& is_seeded_genesis(
                c.genesis,
                w@,
                seq![("Alice"@, (50_000 * octs) as Balance), ("Bob"@, (50_000 * octs) as Balance)],
                "Alice"@,
                seq![("Alice"@, (12_499_990 * beat) as Balance), ("Bob"@, (10 * beat) as Balance)],
                ""@,
                "usdn.testnet"@,
                (87_500_000 * beat) as Balance,
                (4_657 * beat) as Balance,
            )
        },
    }
}

/// The development network: Alice validates and holds the root key; Alice and
/// Bob are endowed. `beat` and `octs` are the runtime's units of its token and of
/// OCT.
pub fn development_config(wasm_binary: Option<&[u8]>, beat: Balance, octs: Balance) -> (r: Result<ChainSpecPlan, String>)
    requires
        seed_keys_derivable("Alice"@),
        seed_key(KeyScheme::Sr25519, "Bob"@) is Some,
        50_000 * octs <= u128::MAX,
        87_500_000 * beat <= u128::MAX,
    ensures
        is_development_config(r, wasm_binary, beat, octs),
{
    let wasm_binary = match wasm_binary {
        Some(w) => w,
        None => return Err("Development wasm not available".to_owned()),
    };
    let properties = get_properties("BEAT", 18, 42);
    let mut authorities: Vec<AuthorityKeys> = Vec::new();
    authorities.push(authority_keys_from_seed("Alice", 50_000 * octs));
    let mut endowed: Vec<(AccountId, Balance)> = Vec::new();
    endowed.push((get_account_id_from_seed("Alice"), 12_500_000 * beat));
    endowed.push((get_account_id_from_seed("Bob"), 10_000_000 * beat));
    let ghost auths = authorities@;
    let ghost end = endowed@;
    let genesis = testnet_genesis(
        wasm_binary,
        authorities,
        get_account_id_from_seed("Alice"),
        Some(endowed),
        appchain_config("", "usdn.testnet", 87_500_000 * beat, 4_657 * beat),
        true,
    );
    proof {
        let seeds = seq![("Alice"@, (50_000 * octs) as Balance)];
        assert(genesis.session_keys@[0] == (auths[0].account, auths[0].account, authority_session_keys(auths[0])));
        assert(is_seed_session_entry(genesis.session_keys@[0], seeds[0].0));
        assert(genesis.validators@[0] == (auths[0].account, auths[0].stash));
        assert(genesis.balances@ == end);
    }
    let boot_nodes: Vec<String> = Vec::new();
    Ok(ChainSpecPlan {
        name: "Development".to_owned(),
        id: "dev".to_owned(),
        chain_type: ChainType::Development,
        genesis,
        boot_nodes,
        protocol_id: Some("beat-development".to_owned()),
        fork_id: None,
        properties: Some(properties),
    })
}

/// The local test network: Alice and Bob validate, Alice holds the root key;
/// Alice and Bob are endowed. `beat` and `octs` are the runtime's units of its
/// token and of OCT.
pub fn local_testnet_config(wasm_binary: Option<&[u8]>, beat: Balance, octs: Balance) -> (r: Result<ChainSpecPlan, String>)
    requires
        seed_keys_derivable("Alice"@),
        seed_keys_derivable("Bob"@),
        50_000 * octs <= u128::MAX,
        87_500_000 * beat <= u128::MAX,
    ensures
        is_local_testnet_config(r, wasm_binary, beat, octs),
{
    let wasm_binary = match wasm_binary {
        Some(w) => w,
        None => return Err("Development wasm not available".to_owned()),
    };
    let properties = get_properties("BEAT", 18, 42);
    let mut authorities: Vec<AuthorityKeys> = Vec::new();
    authorities.push(authority_keys_from_seed("Alice", 50_000 * octs));
    authorities.push(authority_keys_from_seed("Bob", 50_000 * octs));
    let mut endowed: Vec<(AccountId, Balance)> = Vec::new();
    endowed.push((get_account_id_from_seed("Alice"), 12_499_990 * beat));
    endowed.push((get_account_id_from_seed("Bob"), 10 * beat));
    let ghost auths = authorities@;
    let ghost end = endowed@;
    let genesis = testnet_genesis(
        wasm_binary,
        authorities,
        get_account_id_from_seed("Alice"),
        Some(endowed),
        appchain_config("", "usdn.testnet", 87_500_000 * beat, 4_657 * beat),
        true,
    );
    proof {
        let seeds = seq![("Alice"@, (50_000 * octs) as Balance), ("Bob"@, (50_000 * octs) as Balance)];
        assert(genesis.session_keys@[0] == (auths[0].account, auths[0].account, authority_session_keys(auths[0])));
        assert(genesis.session_keys@[1] == (auths[1].account, auths[1].account, authority_session_keys(auths[1])));
        assert(is_seed_session_entry(genesis.session_keys@[0], seeds[0].0));
        assert(is_seed_session_entry(genesis.session_keys@[1], seeds[1].0));
        assert(genesis.validators@[0] == (auths[0].account, auths[0].stash));
        assert(genesis.validators@[1] == (auths[1].account, auths[1].stash));
        assert(genesis.balances@ == end);
    }
    let boot_nodes: Vec<String> = Vec::new();
    Ok(ChainSpecPlan {
        name: "Local Testnet".to_owned(),
        id: "local_testnet".to_owned(),
        chain_type: ChainType::Local,
        genesis,
        boot_nodes,
        protocol_id: Some("beat-local".to_owned()),
        fork_id: None,
        properties: Some(properties),
    })
}

/// `development_config` where the keys it needs can be derived and its amounts
/// fit in a `u128`; `None` where they cannot.
pub fn checked_development_config(wasm_binary: Option<&[u8]>, beat: Balance, octs: Balance) -> (r: Option<Result<ChainSpecPlan, String>>)
    ensures
        r is Some <==> (seed_keys_derivable("Alice"@) && seed_key(KeyScheme::Sr25519, "Bob"@) is Some
            && 50_000 * octs <= u128::MAX && 87_500_000 * beat <= u128::MAX),
        r matches Some(c) ==> is_development_config(c, wasm_binary, beat, octs),
{
    if seed_keys_available("Alice") && seed_key_available("Bob", KeyScheme::Sr25519)
        && octs.checked_mul(50_000).is_some() && beat.checked_mul(87_500_000).is_some() {
        Some(development_config(wasm_binary, beat, octs))
    } else {
        None
    }
}

/// `local_testnet_config` where the keys it needs can be derived and its amounts
/// fit in a `u128`; `None` where they cannot.
pub fn checked_local_testnet_config(wasm_binary: Option<&[u8]>, beat: Balance, octs: Balance) -> (r: Option<Result<ChainSpecPlan, String>>)
    ensures
        r is Some <==> (seed_keys_derivable("Alice"@) && seed_keys_derivable("Bob"@)
            && 50_000 * octs <= u128::MAX && 87_500_000 * beat <= u128::MAX),
        r matches Some(c) ==> is_local_testnet_config(c, wasm_binary, beat, octs),
{
    if seed_keys_available("Alice") && seed_keys_available("Bob")
        && octs.checked_mul(50_000).is_some() && beat.checked_mul(87_500_000).is_some() {
        Some(local_testnet_config(wasm_binary, beat, octs))
    } else {
        None
    }
}

} // verus!
