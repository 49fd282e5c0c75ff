//! The client facade: credentials, an optional endpoint override, and routers for
//! networks named by identifier.
use vstd::prelude::*;

use crate::chains::{chain_views, chains, registry, Chain, NetworkError};
use crate::networks::{identifier_network, local_network, new_local_network, Network, NetworkView};
use crate::provider::BitskiProvider;
use crate::text::{comma_pieces, opt_text, split_commas};
use crate::tokens::{
    opt_texts, AccessTokenProvider, ClientCredentialsAccessTokenProvider, CredentialsView,
    TokenSourceView, TokenStep,
};

verus! {

/// The client id that local development mode calls as.
pub const LOCAL_CLIENT_ID: &'static str = "TEST_CLIENT";

/// A client of the service: who it calls as, where its access tokens come from, and
/// the endpoint that replaces a resolved network's own, if any.
#[derive(Clone, Debug)]
pub struct Bitski {
    client_id: String,
    auth_token_provider: AccessTokenProvider,
    rpc_override: Option<String>,
}

/// The mathematical model of a [`Bitski`] client.
pub struct BitskiView {
    pub client_id: Seq<char>,
    pub tokens: TokenSourceView,
    pub rpc_override: Option<Seq<char>>,
}

impl View for Bitski {
    type V = BitskiView;

    closed spec fn view(&self) -> BitskiView {
        BitskiView {
            client_id: self.client_id@,
            tokens: self.auth_token_provider@,
            rpc_override: opt_text(self.rpc_override),
        }
    }
}

/// Network `n` with its endpoint replaced by `rpc_override`, if one is given.
pub open spec fn overridden(n: NetworkView, rpc_override: Option<Seq<char>>) -> NetworkView {
    match rpc_override {
        Some(u) => NetworkView { rpc_url: u, chain_id: n.chain_id },
        None => n,
    }
}

/// The scopes that a comma-separated setting asks for: none where it names none.
pub open spec fn scopes_of(setting: Option<Seq<char>>) -> Option<Seq<Seq<char>>> {
    let pieces = match setting {
        Some(s) => comma_pieces(s),
        None => Seq::empty(),
    };
    if pieces.len() == 0 {
        None
    } else {
        Some(pieces)
    }
}

/// `p` is a fresh router for network `n` that calls as `client` does.
pub open spec fn fresh_router_for(p: BitskiProvider, client: BitskiView, n: NetworkView) -> bool {
    &&& p.wf()
    &&& p.issued_ids().len() == 0
    &&& p.network@ == n
    &&& p.client_id@ == client.client_id
    &&& p.auth_token_provider@ == client.tokens
}

impl Bitski {
    /// A client that obtains its tokens by a client-credentials grant with
    /// `credential_id` and `client_secret`, asking for `scopes`.
    pub fn new(
        client_id: &str,
        credential_id: &str,
        client_secret: &str,
        scopes: Option<Vec<String>>,
    ) -> (r: Bitski)
        ensures
            r@ == (BitskiView {
                client_id: client_id@,
                tokens: TokenSourceView::ClientCredentials(
                    CredentialsView {
                        client_id: credential_id@,
                        client_secret: client_secret@,
                        scopes: opt_texts(scopes),
                    },
                ),
                rpc_override: None,
            }),
    {
        let credentials = ClientCredentialsAccessTokenProvider::new(
            String::from_str(credential_id),
            String::from_str(client_secret),
            scopes,
        );
        Bitski {
            client_id: String::from_str(client_id),
            auth_token_provider: AccessTokenProvider::ClientCredentials(credentials),
            rpc_override: None,
        }
    }

    /// Makes every router of this client use `rpc_url` as its endpoint.
    pub fn set_rpc_override(&mut self, rpc_url: String)
        ensures
            final(self)@ == (BitskiView { rpc_override: Some(rpc_url@), ..old(self)@ }),
    {
        self.rpc_override = Some(rpc_url);
    }

    /// A client that uses the fixed `access_token`.
    pub fn new_with_access_token(client_id: &str, access_token: &str) -> (r: Bitski)
        ensures
            r@ == (BitskiView {
                client_id: client_id@,
                tokens: TokenSourceView::Static(access_token@),
                rpc_override: None,
            }),
    {
        Bitski {
            client_id: String::from_str(client_id),
            auth_token_provider: AccessTokenProvider::Static(String::from_str(access_token)),
            rpc_override: None,
        }
    }

    /// A client without credentials: its authenticated calls fail.
    pub fn new_unauthenticated(client_id: &str) -> (r: Bitski)
        ensures
            r@ == (BitskiView {
                client_id: client_id@,
                tokens: TokenSourceView::Unauthenticated,
                rpc_override: None,
            }),
    {
        Bitski {
            client_id: String::from_str(client_id),
            auth_token_provider: AccessTokenProvider::Unauthenticated,
            rpc_override: None,
        }
    }

    /// A client from its settings: client credentials where both the credential id and
    /// secret are given (with the scopes of the comma-separated `scopes` setting, if it
    /// names any), else a client without credentials.
    pub fn from_settings(
        client_id: String,
        credential_id: Option<String>,
        credential_secret: Option<String>,
        scopes: Option<String>,
    ) -> (r: Bitski)
        ensures
            match (credential_id, credential_secret) {
                (Some(id), Some(secret)) => r@ == (BitskiView {
                    client_id: client_id@,
                    tokens: TokenSourceView::ClientCredentials(
                        CredentialsView {
                            client_id: id@,
                            client_secret: secret@,
                            scopes: scopes_of(opt_text(scopes)),
                        },
                    ),
                    rpc_override: None,
                }),
                _ => r@ == (BitskiView {
                    client_id: client_id@,
                    tokens: TokenSourceView::Unauthenticated,
                    rpc_override: None,
                }),
            },
    {
        let pieces = match &scopes {
            Some(s) => split_commas(s.as_str()),
            None => Vec::new(),
        };
        assert(pieces@.map_values(|p: String| p@) =~= match opt_text(scopes) {
            Some(s) => comma_pieces(s),
            None => Seq::empty(),
        });
        let scope_list = if pieces.len() == 0 {
            None
        } else {
            Some(pieces)
        };
        match (credential_id, credential_secret) {
            (Some(id), Some(secret)) => Bitski::new(
                client_id.as_str(),
                id.as_str(),
                secret.as_str(),
                scope_list,
            ),
            _ => Bitski::new_unauthenticated(client_id.as_str()),
        }
    }

    /// A router for the network that `network` identifies among `chains` (see
    /// [`Network::from_list`]), at this client's override endpoint if it has one.
    pub fn get_provider_from(&self, chains: Vec<Chain>, network: &str) -> (r: Result<
        BitskiProvider,
        NetworkError,
    >)
        ensures
            match r {
                Ok(p) => identifier_network(chain_views(chains@), network@) matches Some(n)
                    && fresh_router_for(p, self@, overridden(n, self@.rpc_override)),
                Err(e) => identifier_network(chain_views(chains@), network@) is None && e
                    == NetworkError::ChainNotFound,
            },
    {
        let resolved = match Network::from_list(chains, network) {
            Ok(n) => n,
            Err(e) => return Err(e),
        };
        let resolved = match &self.rpc_override {
            Some(url) => resolved.with_rpc_url(url.clone()),
            None => resolved,
        };
        Ok(BitskiProvider::new(&resolved, self.client_id.as_str(), self.auth_token_provider.duplicate()))
    }

    /// A router for the network that `network` identifies in the registry of known
    /// chains (see [`Network::try_from`]), at this client's override endpoint if it has
    /// one.
    pub fn get_provider(&self, network: &str) -> (r: Result<BitskiProvider, NetworkError>)
        ensures
            match r {
                Ok(p) => identifier_network(registry(), network@) matches Some(n) && fresh_router_for(
                    p,
                    self@,
                    overridden(n, self@.rpc_override),
                ),
                Err(e) => identifier_network(registry(), network@) is None && e
                    == NetworkError::ChainNotFound,
            },
    {
        self.get_provider_from(chains(), network)
    }

    /// The first step towards a current access token (see
    /// [`AccessTokenProvider::get_access_token`]).
    pub fn get_access_token(&self) -> (r: TokenStep)
        ensures
            match self@.tokens {
                TokenSourceView::Static(t) => r matches TokenStep::Ready(s) && s@ == t,
                TokenSourceView::Unauthenticated => r == TokenStep::Failed(
                    crate::tokens::AuthError::NotSignedIn,
                ),
                TokenSourceView::ClientCredentials(c) => r matches TokenStep::Exchange(x) && x@
                    == c,
            },
    {
        self.auth_token_provider.get_access_token()
    }

    /// A client for a local development node, calling as `TEST_CLIENT` without
    /// credentials, at `rpc_override` if one is given.
    pub fn new_local_mode(rpc_override: Option<String>) -> (r: Bitski)
        ensures
            r@ == (BitskiView {
                client_id: LOCAL_CLIENT_ID@,
                tokens: TokenSourceView::Unauthenticated,
                rpc_override: opt_text(rpc_override),
            }),
    {
        Bitski {
            client_id: String::from_str(LOCAL_CLIENT_ID),
            auth_token_provider: AccessTokenProvider::Unauthenticated,
            rpc_override,
        }
    }

    /// A router for the local development node called `network` (see
    /// [`new_local_network`]), at this client's override endpoint if it has one.
    pub fn get_local_provider(&self, network: &str) -> (r: Result<BitskiProvider, NetworkError>)
        ensures
            match r {
                Ok(p) => local_network(network@, self@.rpc_override) matches Some(n)
                    && fresh_router_for(p, self@, n),
                Err(e) => local_network(network@, self@.rpc_override) is None && e
                    == NetworkError::LocalNetworkNotConfigured,
            },
    {
        let rpc_override = match &self.rpc_override {
            Some(url) => Some(url.clone()),
            None => None,
        };
        let resolved = match new_local_network(String::from_str(network), rpc_override) {
            Ok(n) => n,
            Err(e) => return Err(e),
        };
        Ok(BitskiProvider::new(&resolved, self.client_id.as_str(), self.auth_token_provider.duplicate()))
    }
}

} // verus!
