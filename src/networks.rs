//! Turning a network identifier into a concrete RPC endpoint and chain id.
use vstd::prelude::*;
use vstd::string::*;

use crate::chains::{chain_from_list, chain_views, chains, registry, resolve, Chain, ChainView, NetworkError};
use crate::text::{decimal_of, decimal_string, opt_text, text_eq};

verus! {

/// The prefix of the service's per-chain RPC endpoints.
pub const WEB3_BASE_URL: &'static str = "https://api.bitski.com/v1/web3/";

/// The service's Ethereum mainnet endpoint, reached by name rather than by chain id.
pub const MAINNET_URL: &'static str = "https://api.bitski.com/v1/web3/mainnet";

/// The chain id of Ethereum mainnet.
pub const MAINNET_CHAIN_ID: u64 = 1;

/// The name of the local development node that can be resolved.
pub const LOCAL_NODE_NAME: &'static str = "anvil";

/// The default endpoint of the local development node.
pub const LOCAL_NODE_URL: &'static str = "http://localhost:8545";

/// The chain id of the local development node.
pub const LOCAL_CHAIN_ID: u64 = 31337;

/// A resolved network: an RPC endpoint and the chain id behind it.
#[derive(Clone, Debug, Eq, Hash)]
pub struct Network {
    pub rpc_url: String,
    pub chain_id: u64,
}

/// The mathematical model of a [`Network`].
pub struct NetworkView {
    pub rpc_url: Seq<char>,
    pub chain_id: u64,
}

impl View for Network {
    type V = NetworkView;

    open spec fn view(&self) -> NetworkView {
        NetworkView { rpc_url: self.rpc_url@, chain_id: self.chain_id }
    }
}

impl PartialEq for Network {
    fn eq(&self, other: &Network) -> (r: bool) {
        self.rpc_url == other.rpc_url && self.chain_id == other.chain_id
    }
}

impl vstd::std_specs::cmp::PartialEqSpecImpl for Network {
    open spec fn obeys_eq_spec() -> bool {
        true
    }

    open spec fn eq_spec(&self, other: &Network) -> bool {
        self@ == other@
    }
}

/// The service's mainnet network.
pub open spec fn mainnet_network() -> NetworkView {
    NetworkView { rpc_url: MAINNET_URL@, chain_id: MAINNET_CHAIN_ID }
}

/// The service's network for the chain with id `chain_id`.
pub open spec fn service_network(chain_id: u64) -> NetworkView {
    NetworkView { rpc_url: WEB3_BASE_URL@ + decimal_of(chain_id as nat), chain_id }
}

/// The registry identifier that `id` is looked up under: `"goerli"` is not a name
/// the registry carries, so it stands for the Goerli short name `"gor"`.
pub open spec fn lookup_identifier(id: Seq<char>) -> Seq<char> {
    if id == "goerli"@ {
        "gor"@
    } else {
        id
    }
}

/// The network that identifier `id` resolves to against the chains `cs`: the mainnet
/// endpoint for `"mainnet"`, else the service endpoint of the chain it names.
pub open spec fn identifier_network(cs: Seq<ChainView>, id: Seq<char>) -> Option<NetworkView> {
    if id == "mainnet"@ {
        Some(mainnet_network())
    } else {
        match resolve(cs, lookup_identifier(id)) {
            Some(c) => Some(service_network(c.chain_id)),
            None => None,
        }
    }
}

/// `"mainnet"` resolves to the service's mainnet endpoint and chain id, whatever the
/// registry holds.
pub proof fn lemma_mainnet_bypasses_registry(cs: Seq<ChainView>)
    ensures
        identifier_network(cs, "mainnet"@) == Some(mainnet_network()),
        (identifier_network(cs, "mainnet"@) matches Some(n) && n.chain_id == 1),
{
}

/// `"goerli"` resolves exactly as the Goerli short name `"gor"` does.
pub proof fn lemma_goerli_is_gor(cs: Seq<ChainView>)
    ensures
        identifier_network(cs, "goerli"@) == identifier_network(cs, "gor"@),
{
    reveal_strlit("goerli");
    reveal_strlit("gor");
    reveal_strlit("mainnet");
    assert("goerli"@ != "mainnet"@) by {
        assert("goerli"@[1] != "mainnet"@[1]);
    }
    assert("gor"@ != "mainnet"@) by {
        assert("gor"@.len() != "mainnet"@.len());
    }
    assert("gor"@ != "goerli"@) by {
        assert("gor"@.len() != "goerli"@.len());
    }
}

/// The service network for `chain_id`.
fn make_service_network(chain_id: u64) -> (r: Network)
    ensures
        r@ == service_network(chain_id),
{
    let mut rpc_url = String::from_str(WEB3_BASE_URL);
    let digits = decimal_string(chain_id);
    rpc_url.append(digits.as_str());
    Network { rpc_url, chain_id }
}

impl Network {
    /// Resolves a network identifier against the chains `chains`: `"mainnet"` gives the
    /// service's mainnet endpoint with chain id 1 without a lookup; `"goerli"` is looked
    /// up as `"gor"`; anything else is looked up as it is, and gives the service
    /// endpoint for that chain's id.
    pub fn from_list(chains: Vec<Chain>, value: &str) -> (r: Result<Network, NetworkError>)
        ensures
            match r {
                Ok(n) => identifier_network(chain_views(chains@), value@) == Some(n@),
                Err(e) => identifier_network(chain_views(chains@), value@) is None && e
                    == NetworkError::ChainNotFound,
            },
    {
        if text_eq(value, "mainnet") {
            return Ok(Network { rpc_url: String::from_str(MAINNET_URL), chain_id: MAINNET_CHAIN_ID });
        }
        let found = if text_eq(value, "goerli") {
            chain_from_list(chains, "gor")
        } else {
            chain_from_list(chains, value)
        };
        match found {
            Ok(chain) => Ok(make_service_network(chain.chain_id)),
            Err(e) => Err(e),
        }
    }

    /// Resolves a network identifier against the registry of known chains (see
    /// [`Network::from_list`]).
    pub fn try_from(value: &str) -> (r: Result<Network, NetworkError>)
        ensures
            match r {
                Ok(n) => identifier_network(registry(), value@) == Some(n@),
                Err(e) => identifier_network(registry(), value@) is None && e
                    == NetworkError::ChainNotFound,
            },
    {
        Network::from_list(chains(), value)
    }

    /// The network with the same chain id and `rpc_url` as its endpoint.
    pub fn with_rpc_url(self, rpc_url: String) -> (r: Network)
        ensures
            r@ == (NetworkView { rpc_url: rpc_url@, chain_id: self.chain_id }),
    {
        Network { rpc_url, chain_id: self.chain_id }
    }
}

/// The network of the local development node called `name`, at `rpc_url` if one is
/// given: only `"anvil"` is known, with chain id 31337 and `http://localhost:8545` as
/// its default endpoint.
pub open spec fn local_network(name: Seq<char>, rpc_url: Option<Seq<char>>) -> Option<NetworkView> {
    if name == LOCAL_NODE_NAME@ {
        Some(
            NetworkView {
                rpc_url: match rpc_url {
                    Some(u) => u,
                    None => LOCAL_NODE_URL@,
                },
                chain_id: LOCAL_CHAIN_ID,
            },
        )
    } else {
        None
    }
}

/// The network of a local development node (see [`local_network`]); a name other than
/// `"anvil"` is not configured.
pub fn new_local_network(network_name: String, rpc_url: Option<String>) -> (r: Result<
    Network,
    NetworkError,
>)
    ensures
        match r {
            Ok(n) => local_network(network_name@, opt_text(rpc_url)) == Some(n@),
            Err(e) => local_network(network_name@, opt_text(rpc_url)) is None && e
                == NetworkError::LocalNetworkNotConfigured,
        },
{
    if text_eq(network_name.as_str(), LOCAL_NODE_NAME) {
        let rpc_url = match rpc_url {
            Some(url) => url,
            None => String::from_str(LOCAL_NODE_URL),
        };
        Ok(Network { rpc_url, chain_id: LOCAL_CHAIN_ID })
    } else {
        Err(NetworkError::LocalNetworkNotConfigured)
    }
}

} // verus!
