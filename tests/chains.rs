use bitski::chains::{
    chain_from_list, chain_from_str, chain_keys, chains, first_key_match, Chain, ChainKeys, NetworkError,
};

#[test]
fn test_chain_name() {
    chain_from_str("eth").expect("could not get eth chain");
    chain_from_str("matic").expect("could not get matic chain");
    assert!(chain_from_str("goerli").is_err());
    chain_from_str("gor").expect("could not get goerli chain");
}

#[test]
fn test_chain_number() {
    chain_from_str("1").expect("could not get chain 1");
    chain_from_str("137").expect("could not get chain 137");
}

#[test]
fn lookup_ignores_case() {
    let c = chain_from_str("MATIC").expect("upper-case short name");
    assert_eq!(c.chain_id, 137);
    let c = chain_from_str("Polygon").expect("network family");
    assert_eq!(c.chain_id, 137);
    assert_eq!(c.short_name, "matic");
    let c = chain_from_str("ETHEREUM MAINNET").expect("display name");
    assert_eq!(c.chain_id, 1);
}

#[test]
fn lookup_of_non_ascii_name() {
    let c = chain_from_str("G\u{d6}RLI").expect("display name with an umlaut");
    assert_eq!(c.chain_id, 5);
    assert_eq!(c.short_name, "gor");
}

#[test]
fn lookup_by_long_chain_id() {
    let c = chain_from_str("11155111").expect("sepolia by id");
    assert_eq!(c.name, "Sepolia");
    assert!(chain_from_str("011155111").is_err());
}

#[test]
fn unknown_identifier_is_not_found() {
    assert_eq!(chain_from_str("no-such-chain").unwrap_err(), NetworkError::ChainNotFound);
    assert_eq!(chain_from_str("").unwrap_err(), NetworkError::ChainNotFound);
    assert_eq!(chain_from_str("mainnet").unwrap_err(), NetworkError::ChainNotFound);
}

#[test]
fn family_label_resolves_to_first_entry() {
    let c = chain_from_str("eth").expect("eth");
    assert_eq!(c.chain_id, 1);
    assert_eq!(c.name, "Ethereum Mainnet");
}

#[test]
fn registry_ids_are_unique() {
    let all = chains();
    assert_eq!(all.len(), 10);
    for i in 0..all.len() {
        for j in 0..all.len() {
            if i != j {
                assert_ne!(all[i].chain_id, all[j].chain_id);
            }
        }
    }
}

fn chain(name: &str, family: &str, short_name: &str, id: u64) -> Chain {
    Chain {
        name: name.to_string(),
        short_name: short_name.to_string(),
        chain: family.to_string(),
        chain_id: id,
        rpc: vec![],
    }
}

#[test]
fn first_matching_entry_wins() {
    let list = vec![
        chain("Alpha", "FAM", "a", 7),
        chain("Beta", "FAM", "b", 8),
        chain("Gamma", "OTHER", "fam", 9),
    ];
    let c = chain_from_list(list, "fam").expect("family label");
    assert_eq!(c.chain_id, 7);
    let list = vec![chain("Alpha", "FAM", "a", 7), chain("Beta", "FAM", "b", 8)];
    assert_eq!(chain_from_list(list, "8").expect("by id").name, "Beta");
    assert!(chain_from_list(vec![], "a").is_err());
}

fn keys(name: &str, family: &str, short_name: &str, id: &str) -> ChainKeys {
    ChainKeys {
        name: name.to_string(),
        chain: family.to_string(),
        short_name: short_name.to_string(),
        chain_id: id.to_string(),
    }
}

#[test]
fn first_key_match_on_given_keys() {
    let ks = vec![keys("alpha", "fam", "a", "7"), keys("beta", "fam", "b", "8"), keys("gamma", "x", "fam", "9")];
    assert_eq!(first_key_match(&ks, "fam"), Some(0));
    assert_eq!(first_key_match(&ks, "8"), Some(1));
    assert_eq!(first_key_match(&ks, "gamma"), Some(2));
    assert_eq!(first_key_match(&ks, "Gamma"), None);
    assert_eq!(first_key_match(&[].to_vec(), "a"), None);
}

#[test]
fn keys_of_a_chain_are_lowercased() {
    let k = chain_keys(&chain("Polygon Mainnet", "Polygon", "MATIC", 137));
    assert_eq!(k.name, "polygon mainnet");
    assert_eq!(k.chain, "polygon");
    assert_eq!(k.short_name, "matic");
    assert_eq!(k.chain_id, "137");
}
