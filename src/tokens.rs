//! Access-token providers: a fixed token, no credentials at all, or an OAuth2
//! client-credentials grant performed afresh for every token that is asked for.
use vstd::prelude::*;

verus! {

/// The authorization endpoint of the service's OAuth2 server.
pub const AUTH_URL: &'static str = "https://account.bitski.com/oauth2/auth";

/// The token endpoint of the service's OAuth2 server.
pub const TOKEN_URL: &'static str = "https://account.bitski.com/oauth2/token";

/// The characters of each string of a sequence.
pub open spec fn texts(v: Seq<String>) -> Seq<Seq<char>> {
    v.map_values(|s: String| s@)
}

/// The characters of each string of an optional list.
pub open spec fn opt_texts(v: Option<Vec<String>>) -> Option<Seq<Seq<char>>> {
    match v {
        Some(v) => Some(texts(v@)),
        None => None,
    }
}

/// A copy of a list of strings.
pub fn copy_strings(v: &Vec<String>) -> (r: Vec<String>)
    ensures
        r@ == v@,
{
    let mut r: Vec<String> = Vec::new();
    let mut i: usize = 0;
    while i < v.len()
        invariant
            i <= v.len(),
            r@ == v@.subrange(0, i as int),
        decreases v.len() - i,
    {
        r.push(v[i].clone());
        assert(r@ == v@.subrange(0, i + 1));
        i = i + 1;
    }
    assert(r@ == v@.subrange(0, v.len() as int));
    r
}

/// A copy of an optional list of strings.
pub fn copy_opt_strings(v: &Option<Vec<String>>) -> (r: Option<Vec<String>>)
    ensures
        opt_texts(r) == opt_texts(*v),
{
    match v {
        Some(list) => Some(copy_strings(list)),
        None => None,
    }
}

/// Why no access token could be had.
#[derive(Clone, Debug, PartialEq, Eq)]
pub enum AuthError {
    /// The provider holds no credentials.
    NotSignedIn,
    /// The authorization server refused or failed the exchange; the message says why.
    TokenExchange(String),
}

/// The credentials of an OAuth2 client-credentials grant, and the scopes to ask for.
#[derive(Clone, Debug)]
pub struct ClientCredentialsAccessTokenProvider {
    pub client_id: String,
    pub client_secret: String,
    pub scopes: Option<Vec<String>>,
}

/// The mathematical model of a [`ClientCredentialsAccessTokenProvider`].
pub struct CredentialsView {
    pub client_id: Seq<char>,
    pub client_secret: Seq<char>,
    pub scopes: Option<Seq<Seq<char>>>,
}

impl View for ClientCredentialsAccessTokenProvider {
    type V = CredentialsView;

    open spec fn view(&self) -> CredentialsView {
        CredentialsView {
            client_id: self.client_id@,
            client_secret: self.client_secret@,
            scopes: opt_texts(self.scopes),
        }
    }
}

impl ClientCredentialsAccessTokenProvider {
    /// Credentials for a client-credentials grant against the service's token endpoint.
    pub fn new(client_id: String, client_secret: String, scopes: Option<Vec<String>>) -> (r: Self)
        ensures
            r@ == (CredentialsView {
                client_id: client_id@,
                client_secret: client_secret@,
                scopes: opt_texts(scopes),
            }),
    {
        ClientCredentialsAccessTokenProvider { client_id, client_secret, scopes }
    }

    /// A copy of these credentials.
    pub fn duplicate(&self) -> (r: Self)
        ensures
            r@ == self@,
    {
        ClientCredentialsAccessTokenProvider {
            client_id: self.client_id.clone(),
            client_secret: self.client_secret.clone(),
            scopes: copy_opt_strings(&self.scopes),
        }
    }

    /// The token that a finished exchange yields: the access token of a granted
    /// request (everything else in the response is dropped), or the server's failure.
    pub fn token_from_exchange(outcome: Result<String, String>) -> (r: Result<String, AuthError>)
        ensures
            match outcome {
                Ok(token) => r == Ok::<String, AuthError>(token),
                Err(message) => r == Err::<String, AuthError>(AuthError::TokenExchange(message)),
            },
    {
        match outcome {
            Ok(token) => Ok(token),
            Err(message) => Err(AuthError::TokenExchange(message)),
        }
    }
}

/// Where the access tokens of authenticated calls come from.
#[derive(Clone, Debug)]
pub enum AccessTokenProvider {
    /// A fixed token, handed out unchanged.
    Static(String),
    /// No credentials: every request for a token fails.
    Unauthenticated,
    /// A client-credentials grant, performed afresh for each token.
    ClientCredentials(ClientCredentialsAccessTokenProvider),
}

/// The mathematical model of an [`AccessTokenProvider`].
pub enum TokenSourceView {
    Static(Seq<char>),
    Unauthenticated,
    ClientCredentials(CredentialsView),
}

impl View for AccessTokenProvider {
    type V = TokenSourceView;

    open spec fn view(&self) -> TokenSourceView {
        match self {
            AccessTokenProvider::Static(t) => TokenSourceView::Static(t@),
            AccessTokenProvider::Unauthenticated => TokenSourceView::Unauthenticated,
            AccessTokenProvider::ClientCredentials(c) => TokenSourceView::ClientCredentials(c@),
        }
    }
}

/// What it takes to produce an access token.
#[derive(Debug)]
pub enum TokenStep {
    /// The token is at hand.
    Ready(String),
    /// No token can be had.
    Failed(AuthError),
    /// A client-credentials exchange with these credentials must be performed; its
    /// outcome goes through [`ClientCredentialsAccessTokenProvider::token_from_exchange`].
    Exchange(ClientCredentialsAccessTokenProvider),
}

impl AccessTokenProvider {
    /// A copy of this provider.
    pub fn duplicate(&self) -> (r: Self)
        ensures
            r@ == self@,
    {
        match self {
            AccessTokenProvider::Static(t) => AccessTokenProvider::Static(t.clone()),
            AccessTokenProvider::Unauthenticated => AccessTokenProvider::Unauthenticated,
            AccessTokenProvider::ClientCredentials(c) => AccessTokenProvider::ClientCredentials(
                c.duplicate(),
            ),
        }
    }

    /// The first step towards a current access token: a fixed token is returned as it
    /// is, a provider without credentials fails with `NotSignedIn`, and a
    /// client-credentials provider asks for an exchange (nothing is cached).
    pub fn get_access_token(&self) -> (r: TokenStep)
        ensures
            match self@ {
                TokenSourceView::Static(t) => r matches TokenStep::Ready(s) && s@ == t,
                TokenSourceView::Unauthenticated => r == TokenStep::Failed(AuthError::NotSignedIn),
                TokenSourceView::ClientCredentials(c) => r matches TokenStep::Exchange(x) && x@
                    == c,
            },
    {
        match self {
            AccessTokenProvider::Static(t) => TokenStep::Ready(t.clone()),
            AccessTokenProvider::Unauthenticated => TokenStep::Failed(AuthError::NotSignedIn),
            AccessTokenProvider::ClientCredentials(c) => TokenStep::Exchange(c.duplicate()),
        }
    }
}

} // verus!
