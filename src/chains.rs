//! The registry of known chains and the lookup of a chain by a user-supplied identifier.
use vstd::prelude::*;
use vstd::string::*;

use crate::text::{lemma_decimal_injective, decimal_of, decimal_string, lower_of, lowercase, text_eq};

verus! {

/// A known chain: its display name, canonical abbreviation, network family, numeric id
/// and default RPC endpoints.
#[derive(Clone, Debug)]
pub struct Chain {
    pub name: String,
    pub short_name: String,
    pub chain: String,
    pub chain_id: u64,
    pub rpc: Vec<String>,
}

/// The mathematical model of a [`Chain`].
pub struct ChainView {
    pub name: Seq<char>,
    pub short_name: Seq<char>,
    pub chain: Seq<char>,
    pub chain_id: u64,
    pub rpc: Seq<Seq<char>>,
}

impl View for Chain {
    type V = ChainView;

    open spec fn view(&self) -> ChainView {
        ChainView {
            name: self.name@,
            short_name: self.short_name@,
            chain: self.chain@,
            chain_id: self.chain_id,
            rpc: self.rpc@.map_values(|s: String| s@),
        }
    }
}

/// Why a chain or network could not be resolved.
#[derive(Clone, Copy, Debug, PartialEq, Eq, Structural)]
pub enum NetworkError {
    /// No registry entry carries the identifier.
    ChainNotFound,
    /// The name given for a local development network is not a known one.
    LocalNetworkNotConfigured,
}

/// The models of a sequence of chains.
pub open spec fn chain_views(cs: Seq<Chain>) -> Seq<ChainView> {
    cs.map_values(|c: Chain| c@)
}

/// `key` (an already lowercased identifier) names chain `c`: it equals the lowercased
/// name, network family or short name, or the decimal form of the chain id.
pub open spec fn chain_matches(c: ChainView, key: Seq<char>) -> bool {
    key == lower_of(c.name) || key == lower_of(c.chain) || key == lower_of(c.short_name)
        || key == decimal_of(c.chain_id as nat)
}

/// Entry `i` is the first entry of `cs` that `key` names.
pub open spec fn is_first_match(cs: Seq<ChainView>, key: Seq<char>, i: int) -> bool {
    &&& 0 <= i < cs.len()
    &&& chain_matches(cs[i], key)
    &&& forall|j: int| 0 <= j < i ==> !chain_matches(#[trigger] cs[j], key)
}

/// The position of the first entry of `cs` that `key` names, if any.
pub open spec fn first_match(cs: Seq<ChainView>, key: Seq<char>) -> Option<int> {
    if exists|i: int| is_first_match(cs, key, i) {
        Some(choose|i: int| is_first_match(cs, key, i))
    } else {
        None
    }
}

/// The entry that identifier `id` resolves to in `cs`: the first one that its
/// lowercased form names.
pub open spec fn resolve(cs: Seq<ChainView>, id: Seq<char>) -> Option<ChainView> {
    match first_match(cs, lower_of(id)) {
        Some(i) => Some(cs[i]),
        None => None,
    }
}

/// There is at most one first match.
proof fn lemma_first_match_unique(cs: Seq<ChainView>, key: Seq<char>, i: int)
    requires
        is_first_match(cs, key, i),
    ensures
        first_match(cs, key) == Some(i),
{
    let k = choose|k: int| is_first_match(cs, key, k);
    if k < i {
        assert(!chain_matches(cs[k], key));
    } else if i < k {
        assert(!chain_matches(cs[i], key));
    }
}

/// Looking an identifier up finds an entry exactly when some entry carries it, and an
/// entry that carries it; when just one entry carries it, that entry is the result.
pub proof fn lemma_resolve_finds_carrier(cs: Seq<ChainView>, id: Seq<char>)
    ensures
        resolve(cs, id) is None <==> (forall|i: int|
            0 <= i < cs.len() ==> !chain_matches(#[trigger] cs[i], lower_of(id))),
        resolve(cs, id) matches Some(c) ==> chain_matches(c, lower_of(id)),
        forall|i: int|
            0 <= i < cs.len() && chain_matches(#[trigger] cs[i], lower_of(id)) && (forall|j: int|
                0 <= j < cs.len() && j != i ==> !chain_matches(#[trigger] cs[j], lower_of(id)))
                ==> resolve(cs, id) == Some(cs[i]),
{
    let key = lower_of(id);
    if exists|i: int| 0 <= i < cs.len() && chain_matches(cs[i], key) {
        let i0 = choose|i: int| 0 <= i < cs.len() && chain_matches(cs[i], key);
        lemma_least_match(cs, key, i0);
    }
    assert forall|i: int|
        0 <= i < cs.len() && chain_matches(#[trigger] cs[i], key) && (forall|j: int|
            0 <= j < cs.len() && j != i ==> !chain_matches(#[trigger] cs[j], key))
            implies resolve(cs, id) == Some(cs[i]) by {
        assert(is_first_match(cs, key, i));
        lemma_first_match_unique(cs, key, i);
    }
}

/// A chain's id in decimal picks that chain, when the ids are unique and no entry
/// carries that text as its lowercased name, network family or short name.
pub proof fn lemma_chain_id_picks_entry(cs: Seq<ChainView>, e: int)
    requires
        0 <= e < cs.len(),
        chain_ids_unique(cs),
        forall|j: int|
            0 <= j < cs.len() ==> {
                let k = decimal_of(cs[e].chain_id as nat);
                &&& k != lower_of(#[trigger] cs[j].name)
                &&& k != lower_of(cs[j].chain)
                &&& k != lower_of(cs[j].short_name)
            },
    ensures
        first_match(cs, decimal_of(cs[e].chain_id as nat)) == Some(e),
{
    let k = decimal_of(cs[e].chain_id as nat);
    assert forall|j: int| 0 <= j < cs.len() && j != e implies !chain_matches(#[trigger] cs[j], k) by {
        if k == decimal_of(cs[j].chain_id as nat) {
            lemma_decimal_injective(cs[e].chain_id as nat, cs[j].chain_id as nat);
        }
    }
    assert(is_first_match(cs, k, e));
    lemma_first_match_unique(cs, k, e);
}

/// Some entry at or before `i` is the first match, when entry `i` matches.
proof fn lemma_least_match(cs: Seq<ChainView>, key: Seq<char>, i: int)
    requires
        0 <= i < cs.len(),
        chain_matches(cs[i], key),
    ensures
        exists|k: int| is_first_match(cs, key, k),
        first_match(cs, key) is Some,
        resolve_at_first(cs, key),
    decreases i,
{
    if forall|j: int| 0 <= j < i ==> !chain_matches(#[trigger] cs[j], key) {
        assert(is_first_match(cs, key, i));
    } else {
        let j = choose|j: int| 0 <= j < i && chain_matches(#[trigger] cs[j], key);
        lemma_least_match(cs, key, j);
    }
}

/// The chosen first match is indeed a first match.
pub open spec fn resolve_at_first(cs: Seq<ChainView>, key: Seq<char>) -> bool {
    first_match(cs, key) matches Some(i) ==> is_first_match(cs, key, i)
}

/// The forms under which a chain can be named: its lowercased name, network family and
/// short name, and its chain id in decimal.
#[derive(Clone, Debug)]
pub struct ChainKeys {
    pub name: String,
    pub chain: String,
    pub short_name: String,
    pub chain_id: String,
}

/// The mathematical model of [`ChainKeys`].
pub struct KeysView {
    pub name: Seq<char>,
    pub chain: Seq<char>,
    pub short_name: Seq<char>,
    pub chain_id: Seq<char>,
}

impl View for ChainKeys {
    type V = KeysView;

    open spec fn view(&self) -> KeysView {
        KeysView {
            name: self.name@,
            chain: self.chain@,
            short_name: self.short_name@,
            chain_id: self.chain_id@,
        }
    }
}

/// The forms under which chain `c` can be named.
pub open spec fn keys_of(c: ChainView) -> KeysView {
    KeysView {
        name: lower_of(c.name),
        chain: lower_of(c.chain),
        short_name: lower_of(c.short_name),
        chain_id: decimal_of(c.chain_id as nat),
    }
}

/// `key` is one of the forms `k`.
pub open spec fn keys_match(k: KeysView, key: Seq<char>) -> bool {
    key == k.name || key == k.chain || key == k.short_name || key == k.chain_id
}

/// Entry `i` is the first of `ks` that `key` is one of the forms of.
pub open spec fn is_first_key_match(ks: Seq<KeysView>, key: Seq<char>, i: int) -> bool {
    &&& 0 <= i < ks.len()
    &&& keys_match(ks[i], key)
    &&& forall|j: int| 0 <= j < i ==> !keys_match(#[trigger] ks[j], key)
}

/// The forms under which `c` can be named.
pub fn chain_keys(c: &Chain) -> (r: ChainKeys)
    ensures
        r@ == keys_of(c@),
{
    ChainKeys {
        name: lowercase(c.name.as_str()),
        chain: lowercase(c.chain.as_str()),
        short_name: lowercase(c.short_name.as_str()),
        chain_id: decimal_string(c.chain_id),
    }
}

/// The position of the first entry of `keys` that `key` is one of the forms of; `None`
/// where there is none.
pub fn first_key_match(keys: &Vec<ChainKeys>, key: &str) -> (r: Option<usize>)
    ensures
        match r {
            Some(i) => is_first_key_match(keys@.map_values(|k: ChainKeys| k@), key@, i as int),
            None => forall|i: int|
                0 <= i < keys@.len() ==> !keys_match(#[trigger] keys@[i]@, key@),
        },
{
    let ghost ks = keys@.map_values(|k: ChainKeys| k@);
    let mut i: usize = 0;
    while i < keys.len()
        invariant
            ks == keys@.map_values(|k: ChainKeys| k@),
            i <= keys.len(),
            forall|j: int| 0 <= j < i ==> !keys_match(#[trigger] ks[j], key@),
        decreases keys.len() - i,
    {
        let k = &keys[i];
        if text_eq(k.name.as_str(), key) || text_eq(k.chain.as_str(), key) || text_eq(
            k.short_name.as_str(),
            key,
        ) || text_eq(k.chain_id.as_str(), key) {
            return Some(i);
        }
        i = i + 1;
    }
    assert forall|j: int| 0 <= j < keys@.len() implies !keys_match(#[trigger] keys@[j]@, key@) by {
        assert(ks[j] == keys@[j]@);
    }
    None
}

/// The position in `chains` of the entry that `value` resolves to.
pub fn find_chain(chains: &Vec<Chain>, value: &str) -> (r: Option<usize>)
    ensures
        match r {
            Some(i) => first_match(chain_views(chains@), lower_of(value@)) == Some(i as int),
            None => first_match(chain_views(chains@), lower_of(value@)) is None,
        },
{
    let ghost cs = chain_views(chains@);
    let key = lowercase(value);
    let mut keys: Vec<ChainKeys> = Vec::new();
    let mut i: usize = 0;
    while i < chains.len()
        invariant
            cs == chain_views(chains@),
            i <= chains.len(),
            keys@.len() == i,
            forall|j: int| 0 <= j < i ==> (#[trigger] keys@[j])@ == keys_of(cs[j]),
        decreases chains.len() - i,
    {
        keys.push(chain_keys(&chains[i]));
        i = i + 1;
    }
    let ghost ks = keys@.map_values(|k: ChainKeys| k@);
    assert forall|j: int| 0 <= j < cs.len() implies #[trigger] chain_matches(cs[j], key@) == keys_match(
        ks[j],
        key@,
    ) by {
        assert(ks[j] == keys@[j]@);
    }
    match first_key_match(&keys, key.as_str()) {
        Some(i) => {
            assert(is_first_match(cs, key@, i as int)) by {
                assert(chain_matches(cs[i as int], key@) == keys_match(ks[i as int], key@));
                assert forall|j: int| 0 <= j < i implies !chain_matches(#[trigger] cs[j], key@) by {
                    assert(chain_matches(cs[j], key@) == keys_match(ks[j], key@));
                }
            }
            proof {
                lemma_first_match_unique(cs, key@, i as int);
            }
            Some(i)
        },
        None => {
            assert forall|k: int| !is_first_match(cs, key@, k) by {
                if 0 <= k < cs.len() {
                    assert(chain_matches(cs[k], key@) == keys_match(ks[k], key@));
                    assert(!keys_match(keys@[k]@, key@));
                }
            }
            None
        },
    }
}

/// Resolves `value` within `chains`: the first entry whose lowercased name, network
/// family or short name, or whose chain id in decimal, equals the lowercased `value`.
pub fn chain_from_list(chains: Vec<Chain>, value: &str) -> (r: Result<Chain, NetworkError>)
    ensures
        match r {
            Ok(c) => resolve(chain_views(chains@), value@) == Some(c@),
            Err(e) => resolve(chain_views(chains@), value@) is None && e == NetworkError::ChainNotFound,
        },
{
    let ghost cs = chain_views(chains@);
    let mut chains = chains;
    match find_chain(&chains, value) {
        Some(i) => {
            let c = chains.remove(i);
            Ok(c)
        },
        None => Err(NetworkError::ChainNotFound),
    }
}

/// The model of a registry entry with one default RPC endpoint.
pub open spec fn entry_view(
    name: Seq<char>,
    chain: Seq<char>,
    short_name: Seq<char>,
    chain_id: u64,
    rpc: Seq<char>,
) -> ChainView {
    ChainView { name, short_name, chain, chain_id, rpc: seq![rpc] }
}

/// The known chains, in lookup order.
pub open spec fn registry() -> Seq<ChainView> {
    seq![
        entry_view("Ethereum Mainnet"@, "ETH"@, "eth"@, 1, "https://cloudflare-eth.com"@),
        entry_view("G\u{f6}rli"@, "ETH"@, "gor"@, 5, "https://rpc.goerli.mudit.blog/"@),
        entry_view("OP Mainnet"@, "ETH"@, "oeth"@, 10, "https://mainnet.optimism.io"@),
        entry_view("BNB Smart Chain Mainnet"@, "BSC"@, "bnb"@, 56, "https://bsc-dataseed.binance.org"@),
        entry_view("Polygon Mainnet"@, "Polygon"@, "matic"@, 137, "https://polygon-rpc.com"@),
        entry_view("Base"@, "ETH"@, "base"@, 8453, "https://mainnet.base.org"@),
        entry_view("Arbitrum One"@, "ETH"@, "arb1"@, 42161, "https://arb1.arbitrum.io/rpc"@),
        entry_view("Avalanche C-Chain"@, "AVAX"@, "avax"@, 43114, "https://api.avax.network/ext/bc/C/rpc"@),
        entry_view("Mumbai"@, "Polygon"@, "maticmum"@, 80001, "https://rpc-mumbai.maticvigil.com"@),
        entry_view("Sepolia"@, "ETH"@, "sep"@, 11155111, "https://rpc.sepolia.org"@),
    ]
}

/// No two entries of `cs` share a chain id.
pub open spec fn chain_ids_unique(cs: Seq<ChainView>) -> bool {
    forall|i: int, j: int|
        0 <= i < cs.len() && 0 <= j < cs.len() && i != j ==> #[trigger] cs[i].chain_id
            != #[trigger] cs[j].chain_id
}

/// Builds one registry entry.
fn entry(name: &str, chain: &str, short_name: &str, chain_id: u64, rpc: &str) -> (r: Chain)
    ensures
        r@ == entry_view(name@, chain@, short_name@, chain_id, rpc@),
{
    let mut endpoints: Vec<String> = Vec::new();
    endpoints.push(String::from_str(rpc));
    let r = Chain {
        name: String::from_str(name),
        short_name: String::from_str(short_name),
        chain: String::from_str(chain),
        chain_id,
        rpc: endpoints,
    };
    assert(r@.rpc =~= seq![rpc@]);
    r
}

/// The registry of known chains, in lookup order.
pub fn chains() -> (r: Vec<Chain>)
    ensures
        chain_views(r@) == registry(),
        chain_ids_unique(chain_views(r@)),
{
    let mut r: Vec<Chain> = Vec::new();
    r.push(entry("Ethereum Mainnet", "ETH", "eth", 1, "https://cloudflare-eth.com"));
    r.push(entry("G\u{f6}rli", "ETH", "gor", 5, "https://rpc.goerli.mudit.blog/"));
    r.push(entry("OP Mainnet", "ETH", "oeth", 10, "https://mainnet.optimism.io"));
    r.push(entry("BNB Smart Chain Mainnet", "BSC", "bnb", 56, "https://bsc-dataseed.binance.org"));
    r.push(entry("Polygon Mainnet", "Polygon", "matic", 137, "https://polygon-rpc.com"));
    r.push(entry("Base", "ETH", "base", 8453, "https://mainnet.base.org"));
    r.push(entry("Arbitrum One", "ETH", "arb1", 42161, "https://arb1.arbitrum.io/rpc"));
    r.push(entry("Avalanche C-Chain", "AVAX", "avax", 43114, "https://api.avax.network/ext/bc/C/rpc"));
    r.push(entry("Mumbai", "Polygon", "maticmum", 80001, "https://rpc-mumbai.maticvigil.com"));
    r.push(entry("Sepolia", "ETH", "sep", 11155111, "https://rpc.sepolia.org"));
    assert(chain_views(r@) =~= registry());
    r
}

/// Resolves `value` in the registry of known chains (see [`chain_from_list`]).
pub fn chain_from_str(value: &str) -> (r: Result<Chain, NetworkError>)
    ensures
        match r {
            Ok(c) => resolve(registry(), value@) == Some(c@),
            Err(e) => resolve(registry(), value@) is None && e == NetworkError::ChainNotFound,
        },
{
    chain_from_list(chains(), value)
}

} // verus!
