use pallet_room::chain_spec::{
    appchain_config, authority_keys_from_seed, checked_development_config, checked_testnet_genesis,
    checked_get_from_seed,
    default_endowment_available,
    checked_local_testnet_config, dev_uri, development_config, get_account_id_from_seed,
    get_from_seed, get_properties, local_testnet_config, seed_key_available, seed_keys_available,
    session_keys, testnet_genesis, ChainType, KeyScheme, PropertyValue, PublicKey,
};

fn hex<const N: usize>(s: &str) -> [u8; N] {
    let mut out = [0u8; N];
    for i in 0..N {
        out[i] = u8::from_str_radix(&s[2 * i..2 * i + 2], 16).unwrap();
    }
    out
}

const ALICE_SR: &str = "d43593c715fdd31c61141abd04a99fd6822c8558854ccde39a5684e7a56da27d";
const ALICE_ED: &str = "88dc3417d5058ec4b4503e0c12ea1a0a89be200fe98922423d4334014fa6b0ee";
const ALICE_EC: &str = "020a1091341fe5664bfa1782d5e04779689068c916b04cb365ec3153755684d9a1";
const BOB_SR: &str = "8eaf04151687736326c9fea17e25fc5287613693c912909cb226aa4794f26a48";

#[test]
fn dev_uri_prefixes_two_slashes() {
    assert_eq!(dev_uri("Alice"), "//Alice");
    assert_eq!(dev_uri(""), "//");
}

#[test]
fn alice_keys() {
    match get_from_seed("Alice", KeyScheme::Sr25519) {
        PublicKey::Sr25519(k) => assert_eq!(k, hex::<32>(ALICE_SR)),
        other => panic!("unexpected key {:?}", other),
    }
    match get_from_seed("Alice", KeyScheme::Ed25519) {
        PublicKey::Ed25519(k) => assert_eq!(k, hex::<32>(ALICE_ED)),
        other => panic!("unexpected key {:?}", other),
    }
    match get_from_seed("Alice", KeyScheme::Ecdsa) {
        PublicKey::Ecdsa(k) => assert_eq!(k, hex::<33>(ALICE_EC)),
        other => panic!("unexpected key {:?}", other),
    }
    assert_eq!(get_account_id_from_seed("Alice"), hex::<32>(ALICE_SR));
    assert_eq!(get_account_id_from_seed("Bob"), hex::<32>(BOB_SR));
}

#[test]
fn soft_junction_refused_by_ed25519_only() {
    assert!(seed_key_available("Alice/soft", KeyScheme::Sr25519));
    assert!(!seed_key_available("Alice/soft", KeyScheme::Ed25519));
    assert!(!seed_keys_available("Alice/soft"));
    assert!(seed_keys_available("Alice"));
}

#[test]
fn authority_keys_of_alice() {
    let k = authority_keys_from_seed("Alice", 77);
    assert_eq!(k.account, hex::<32>(ALICE_SR));
    assert_eq!(k.babe, hex::<32>(ALICE_SR));
    assert_eq!(k.im_online, hex::<32>(ALICE_SR));
    assert_eq!(k.octopus, hex::<32>(ALICE_SR));
    assert_eq!(k.grandpa, hex::<32>(ALICE_ED));
    assert_eq!(k.beefy, hex::<33>(ALICE_EC));
    assert_eq!(k.stash, 77);
    let s = session_keys(k.babe, k.grandpa, k.im_online, k.beefy, k.octopus);
    assert_eq!(s.grandpa, k.grandpa);
    assert_eq!(s.beefy, k.beefy);
}

#[test]
fn properties_of_beat() {
    let p = get_properties("BEAT", 18, 42);
    assert_eq!(p.len(), 3);
    assert_eq!(p[0].0, "tokenSymbol");
    assert!(matches!(&p[0].1, PropertyValue::Text(t) if t == "BEAT"));
    assert_eq!(p[1].0, "tokenDecimals");
    assert!(matches!(p[1].1, PropertyValue::Number(18)));
    assert_eq!(p[2].0, "ss58Format");
    assert!(matches!(p[2].1, PropertyValue::Number(42)));
}

#[test]
fn appchain_config_keeps_its_arguments() {
    let c = appchain_config("anchor.testnet", "usdn.testnet", 5, 6);
    assert_eq!(c, ("anchor.testnet".to_string(), "usdn.testnet".to_string(), 5, 6));
}

#[test]
fn testnet_genesis_defaults_to_six_empty_accounts() {
    let alice = authority_keys_from_seed("Alice", 9);
    let bob = authority_keys_from_seed("Bob", 8);
    let g = testnet_genesis(
        &[1, 2, 3],
        vec![alice, bob],
        alice.account,
        None,
        appchain_config("a", "b", 3, 4),
        false,
    );
    assert_eq!(g.code, vec![1, 2, 3]);
    assert_eq!(g.balances.len(), 6);
    assert_eq!(g.balances[0], (hex::<32>(ALICE_SR), 0));
    assert_eq!(g.balances[1], (hex::<32>(BOB_SR), 0));
    for (i, name) in ["Alice", "Bob", "Charlie", "Dave", "Eve", "Ferdie"].iter().enumerate() {
        assert_eq!(g.balances[i], (get_account_id_from_seed(name), 0));
    }
    assert_eq!(g.validators, vec![(alice.account, 9), (bob.account, 8)]);
    assert_eq!(g.session_keys.len(), 2);
    assert_eq!(g.session_keys[1].0, bob.account);
    assert_eq!(g.session_keys[1].1, bob.account);
    assert_eq!(g.session_keys[1].2.grandpa, bob.grandpa);
    assert_eq!(g.sudo_key, Some(alice.account));
    assert_eq!(g.anchor_contract, "a");
    assert_eq!(g.asset_id_by_token_id, vec![("b".to_string(), 0)]);
    assert_eq!(g.premined_amount, 3);
    assert_eq!(g.era_payout, 4);
}

#[test]
fn testnet_genesis_keeps_given_endowment() {
    let alice = authority_keys_from_seed("Alice", 9);
    let g = testnet_genesis(
        &[],
        vec![alice],
        alice.account,
        Some(vec![([5u8; 32], 11)]),
        appchain_config("", "x", 0, 0),
        true,
    );
    assert_eq!(g.balances, vec![([5u8; 32], 11)]);
}

const UNIT: u128 = 1_000_000_000_000_000_000;

#[test]
fn development_config_without_runtime_fails() {
    match development_config(None, UNIT, UNIT) {
        Err(e) => assert_eq!(e, "Development wasm not available"),
        Ok(_) => panic!("a chain spec without runtime code"),
    }
    match local_testnet_config(None, UNIT, UNIT) {
        Err(e) => assert_eq!(e, "Development wasm not available"),
        Ok(_) => panic!("a chain spec without runtime code"),
    }
}

#[test]
fn development_config_of_alice_and_bob() {
    let c = development_config(Some(&[0xAB]), UNIT, UNIT).unwrap();
    assert_eq!(c.name, "Development");
    assert_eq!(c.id, "dev");
    assert_eq!(c.chain_type, ChainType::Development);
    assert!(c.boot_nodes.is_empty());
    assert_eq!(c.protocol_id.as_deref(), Some("beat-development"));
    assert!(c.fork_id.is_none());
    assert_eq!(c.properties.as_ref().unwrap().len(), 3);
    let g = &c.genesis;
    assert_eq!(g.code, vec![0xAB]);
    assert_eq!(
        g.balances,
        vec![(hex::<32>(ALICE_SR), 12_500_000 * UNIT), (hex::<32>(BOB_SR), 10_000_000 * UNIT)]
    );
    assert_eq!(g.validators, vec![(hex::<32>(ALICE_SR), 50_000 * UNIT)]);
    assert_eq!(g.session_keys.len(), 1);
    assert_eq!(g.session_keys[0].2.beefy, hex::<33>(ALICE_EC));
    assert_eq!(g.sudo_key, Some(hex::<32>(ALICE_SR)));
    assert_eq!(g.anchor_contract, "");
    assert_eq!(g.asset_id_by_token_id, vec![("usdn.testnet".to_string(), 0)]);
    assert_eq!(g.premined_amount, 87_500_000 * UNIT);
    assert_eq!(g.era_payout, 4_657 * UNIT);
}

#[test]
fn local_testnet_config_of_alice_and_bob() {
    let c = local_testnet_config(Some(&[1, 2]), UNIT, 2 * UNIT).unwrap();
    assert_eq!(c.name, "Local Testnet");
    assert_eq!(c.id, "local_testnet");
    assert_eq!(c.chain_type, ChainType::Local);
    assert_eq!(c.protocol_id.as_deref(), Some("beat-local"));
    assert!(c.properties.is_some());
    let g = &c.genesis;
    assert_eq!(
        g.balances,
        vec![(hex::<32>(ALICE_SR), 12_499_990 * UNIT), (hex::<32>(BOB_SR), 10 * UNIT)]
    );
    assert_eq!(
        g.validators,
        vec![(hex::<32>(ALICE_SR), 100_000 * UNIT), (hex::<32>(BOB_SR), 100_000 * UNIT)]
    );
    assert_eq!(g.session_keys[1].0, hex::<32>(BOB_SR));
}

#[test]
fn checked_configs_refuse_overflowing_units() {
    assert!(checked_development_config(Some(&[1]), u128::MAX, UNIT).is_none());
    assert!(checked_local_testnet_config(Some(&[1]), UNIT, u128::MAX).is_none());
    let c = checked_development_config(Some(&[1]), UNIT, UNIT).unwrap().unwrap();
    assert_eq!(c.id, "dev");
    let c = checked_local_testnet_config(None, UNIT, UNIT).unwrap();
    assert!(c.is_err());
}

#[test]
fn checked_testnet_genesis_needs_default_accounts_or_an_endowment() {
    assert!(default_endowment_available());
    let alice = authority_keys_from_seed("Alice", 1);
    let g = checked_testnet_genesis(&[7], vec![alice], alice.account, None, appchain_config("", "x", 0, 0), false)
        .unwrap();
    assert_eq!(g.balances.len(), 6);
    assert_eq!(g.balances[5], (get_account_id_from_seed("Ferdie"), 0));
    let g = checked_testnet_genesis(&[7], vec![], alice.account, Some(vec![]), appchain_config("", "x", 0, 0), false)
        .unwrap();
    assert!(g.balances.is_empty());
    assert!(g.validators.is_empty());
}

#[test]
fn checked_get_from_seed_answers_none_where_derivation_fails() {
    match checked_get_from_seed("Alice", KeyScheme::Ed25519) {
        Some(PublicKey::Ed25519(k)) => assert_eq!(k, hex::<32>(ALICE_ED)),
        other => panic!("unexpected key {:?}", other),
    }
    assert!(checked_get_from_seed("Alice/soft", KeyScheme::Ed25519).is_none());
    assert!(checked_get_from_seed("Alice/soft", KeyScheme::Sr25519).is_some());
}

#[test]
fn testnet_genesis_ignores_println_flag() {
    let alice = authority_keys_from_seed("Alice", 3);
    let a = testnet_genesis(&[4], vec![alice], alice.account, None, appchain_config("p", "q", 1, 2), true);
    let b = testnet_genesis(&[4], vec![alice], alice.account, None, appchain_config("p", "q", 1, 2), false);
    assert_eq!(a.code, b.code);
    assert_eq!(a.balances, b.balances);
    assert_eq!(a.validators, b.validators);
    assert_eq!(a.sudo_key, b.sudo_key);
    assert_eq!(a.anchor_contract, b.anchor_contract);
    assert_eq!(a.asset_id_by_token_id, b.asset_id_by_token_id);
    assert_eq!(a.premined_amount, b.premined_amount);
    assert_eq!(a.era_payout, b.era_payout);
    assert_eq!(a.session_keys.len(), b.session_keys.len());
    assert_eq!(a.session_keys[0].2.beefy, b.session_keys[0].2.beefy);
}
