use bitski::chains::{Chain, NetworkError};
use bitski::networks::{new_local_network, Network};

#[test]
fn test_chain_name_try_from() {
    let n = Network::try_from("goerli").expect("could not get goerli chain");
    assert_eq!(n.chain_id, 5);

    let n = Network::try_from("mainnet").expect("could not get mainnet chain");
    assert_eq!(n.chain_id, 1);

    let n = Network::try_from("polygon").expect("could not get polygon chain");
    assert_eq!(n.chain_id, 137);
}

#[test]
fn mainnet_uses_named_endpoint() {
    let n = Network::try_from("mainnet").expect("mainnet");
    assert_eq!(n.rpc_url, "https://api.bitski.com/v1/web3/mainnet");
    assert_eq!(n.chain_id, 1);
}

#[test]
fn other_chains_use_chain_id_endpoint() {
    let n = Network::try_from("polygon").expect("polygon");
    assert_eq!(n.rpc_url, "https://api.bitski.com/v1/web3/137");
    let n = Network::try_from("eth").expect("eth");
    assert_eq!(n.rpc_url, "https://api.bitski.com/v1/web3/1");
    assert_eq!(n.chain_id, 1);
}

#[test]
fn endpoint_carries_full_chain_id() {
    let n = Network::try_from("SEP").expect("sepolia");
    assert_eq!(n.rpc_url, "https://api.bitski.com/v1/web3/11155111");
    assert_eq!(n.chain_id, 11155111);
    let n = Network::try_from("43114").expect("avalanche");
    assert_eq!(n.rpc_url, "https://api.bitski.com/v1/web3/43114");
}

#[test]
fn goerli_matches_gor() {
    let a = Network::try_from("goerli").expect("goerli");
    let b = Network::try_from("gor").expect("gor");
    assert_eq!(a, b);
    assert_eq!(a.rpc_url, "https://api.bitski.com/v1/web3/5");
}

#[test]
fn unknown_network_is_not_found() {
    assert_eq!(Network::try_from("nowhere").unwrap_err(), NetworkError::ChainNotFound);
}

#[test]
fn network_equality_uses_both_fields() {
    let a = Network { rpc_url: "u".to_string(), chain_id: 1 };
    let b = Network { rpc_url: "u".to_string(), chain_id: 2 };
    let c = Network { rpc_url: "v".to_string(), chain_id: 1 };
    assert!(a != b);
    assert!(a != c);
    assert!(a == a.clone());
}

#[test]
fn local_network_default_endpoint() {
    let n = new_local_network("anvil".to_string(), None).expect("anvil");
    assert_eq!(n.rpc_url, "http://localhost:8545");
    assert_eq!(n.chain_id, 31337);
}

#[test]
fn local_network_override_endpoint() {
    let n = new_local_network("anvil".to_string(), Some("http://10.0.0.2:9000".to_string()))
        .expect("anvil");
    assert_eq!(n.rpc_url, "http://10.0.0.2:9000");
    assert_eq!(n.chain_id, 31337);
}

#[test]
fn unknown_local_network_is_not_configured() {
    assert_eq!(
        new_local_network("ganache".to_string(), None).unwrap_err(),
        NetworkError::LocalNetworkNotConfigured
    );
}

fn gnosis() -> Chain {
    Chain {
        name: "Gnosis".to_string(),
        short_name: "gno".to_string(),
        chain: "GNO".to_string(),
        chain_id: 100,
        rpc: vec!["https://rpc.gnosischain.com".to_string()],
    }
}

#[test]
fn network_from_given_list() {
    let n = Network::from_list(vec![gnosis()], "GNO").expect("gnosis");
    assert_eq!(n.chain_id, 100);
    assert_eq!(n.rpc_url, "https://api.bitski.com/v1/web3/100");
    let n = Network::from_list(vec![], "mainnet").expect("mainnet without lookup");
    assert_eq!(n.chain_id, 1);
    assert_eq!(Network::from_list(vec![gnosis()], "polygon").unwrap_err(), NetworkError::ChainNotFound);
    assert_eq!(Network::from_list(vec![gnosis()], "goerli").unwrap_err(), NetworkError::ChainNotFound);
}
