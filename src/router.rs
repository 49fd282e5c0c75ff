//! The transport router: which lane a JSON-RPC method goes through, the request id
//! counter, and the HTTP request that each lane sends.
use vstd::prelude::*;
use vstd::string::*;

use crate::text::{contains_seq, contains_text, is_header_text, is_header_value, opt_text, text_eq};
use crate::tokens::AuthError;

verus! {

#[verifier::external_type_specification]
#[verifier::external_body]
pub struct ExValue(serde_json::Value);

/// Methods that need the caller's credentials: they go through the authenticated lane.
pub const AUTH_METHODS: [&'static str; 7] = [
    "eth_sendTransaction",
    "eth_accounts",
    "eth_sign",
    "personal_sign",
    "eth_signTypedData",
    "eth_signTypedData_v3",
    "eth_signTypedData_v4",
];

/// Methods that the service answers over its REST interface.
pub const REST_METHODS: [&'static str; 4] = [
    "eth_blockNumber",
    "eth_getBlockByNumber",
    "net_version",
    "eth_getLogs",
];

/// An endpoint whose address holds this is one of the service's own, for the REST lane.
/// The REST lane tests the endpoint as given against this domain, while the plain lane
/// tests the parsed endpoint against [`API_HOST`] before it sends the API key; the two
/// tests differ and both are kept as they are.
pub const SERVICE_DOMAIN: &'static str = "bitski.com";

/// A parsed endpoint whose address holds this receives the API key on the plain lane.
pub const API_HOST: &'static str = "api.bitski.com";

/// The header that carries the client id.
pub const API_KEY_HEADER: &'static str = "X-API-Key";

/// The header that carries the bearer token.
pub const AUTHORIZATION_HEADER: &'static str = "Authorization";

/// The header that names this client.
pub const USER_AGENT_HEADER: &'static str = "User-Agent";

/// How this client names itself to the servers it calls.
pub const USER_AGENT: &'static str = "bitski/0.1.0";

/// The JSON-RPC error code reported when no access token could be had.
pub const AUTH_FAILED_CODE: i64 = 403;

/// `m` is one of the strings of `list`.
pub open spec fn listed(list: Seq<&str>, m: Seq<char>) -> bool {
    exists|i: int| 0 <= i < list.len() && (#[trigger] list[i])@ == m
}

/// `m` is a method of the authenticated lane.
pub open spec fn is_auth_method_spec(m: Seq<char>) -> bool {
    listed(AUTH_METHODS@, m)
}

/// `m` is a method that the service answers over REST.
pub open spec fn is_rest_method_spec(m: Seq<char>) -> bool {
    listed(REST_METHODS@, m)
}

/// The transport path of a call.
#[derive(Clone, Copy, Debug, PartialEq, Eq, Structural)]
pub enum Lane {
    /// An HTTPS JSON-RPC call with a bearer token and the API key.
    Authenticated,
    /// A `GET` to the service's REST interface with the API key.
    Rest,
    /// A plain JSON-RPC call to the endpoint.
    Plain,
}

/// The lane of method `m` on a network whose endpoint is `url`: the authenticated lane
/// for the methods that need credentials, the REST lane for the REST methods on one of
/// the service's own endpoints, and the plain lane for everything else.
pub open spec fn lane_of(m: Seq<char>, url: Seq<char>) -> Lane {
    if is_auth_method_spec(m) {
        Lane::Authenticated
    } else if is_rest_method_spec(m) && contains_seq(url, SERVICE_DOMAIN@) {
        Lane::Rest
    } else {
        Lane::Plain
    }
}

/// No method is both an authenticated and a REST method.
proof fn lemma_method_lists_disjoint(m: Seq<char>)
    ensures
        !(is_auth_method_spec(m) && is_rest_method_spec(m)),
{
    if is_auth_method_spec(m) && is_rest_method_spec(m) {
        let i = choose|i: int| 0 <= i < AUTH_METHODS@.len() && (#[trigger] AUTH_METHODS@[i])@ == m;
        let j = choose|j: int| 0 <= j < REST_METHODS@.len() && (#[trigger] REST_METHODS@[j])@ == m;
        reveal_strlit("eth_sendTransaction");
        reveal_strlit("eth_accounts");
        reveal_strlit("eth_sign");
        reveal_strlit("personal_sign");
        reveal_strlit("eth_signTypedData");
        reveal_strlit("eth_signTypedData_v3");
        reveal_strlit("eth_signTypedData_v4");
        reveal_strlit("eth_blockNumber");
        reveal_strlit("eth_getBlockByNumber");
        reveal_strlit("net_version");
        reveal_strlit("eth_getLogs");
        if i == 0 {
            assert(m.len() == 19 && m[4] == 's');
        } else if i == 1 {
            assert(m.len() == 12 && m[4] == 'a');
        } else if i == 2 {
            assert(m.len() == 8 && m[4] == 's');
        } else if i == 3 {
            assert(m.len() == 13 && m[4] == 'o');
        } else if i == 4 {
            assert(m.len() == 17 && m[4] == 's');
        } else if i == 5 {
            assert(m.len() == 20 && m[4] == 's');
        } else if i == 6 {
            assert(m.len() == 20 && m[4] == 's');
        }
        if j == 0 {
            assert(m.len() == 15 && m[4] == 'b');
        } else if j == 1 {
            assert(m.len() == 20 && m[4] == 'g');
        } else if j == 2 {
            assert(m.len() == 11 && m[4] == 'v');
        } else if j == 3 {
            assert(m.len() == 11 && m[4] == 'g');
        }
    }
}

/// The lane does not depend on anything but the method and the endpoint: every
/// authenticated method takes the authenticated lane on any endpoint, a REST method on
/// an endpoint outside the service's domain takes the plain lane, and a method on
/// neither list always takes the plain lane.
pub proof fn lemma_lane_policy(m: Seq<char>, url: Seq<char>)
    ensures
        is_auth_method_spec(m) ==> lane_of(m, url) == Lane::Authenticated,
        is_rest_method_spec(m) && !contains_seq(url, SERVICE_DOMAIN@) ==> lane_of(m, url)
            == Lane::Plain,
        is_rest_method_spec(m) && contains_seq(url, SERVICE_DOMAIN@) ==> lane_of(m, url)
            == Lane::Rest,
        !is_auth_method_spec(m) && !is_rest_method_spec(m) ==> lane_of(m, url) == Lane::Plain,
{
    lemma_method_lists_disjoint(m);
}

/// Whether `m` is one of the strings of `list`.
fn is_listed(list: &[&str], m: &str) -> (r: bool)
    ensures
        r == listed(list@, m@),
{
    let mut i: usize = 0;
    while i < list.len()
        invariant
            i <= list@.len(),
            forall|k: int| 0 <= k < i ==> (#[trigger] list@[k])@ != m@,
        decreases list@.len() - i,
    {
        if text_eq(list[i], m) {
            return true;
        }
        i = i + 1;
    }
    false
}

/// Whether `m` is a method of the authenticated lane.
pub fn is_auth_method(m: &str) -> (r: bool)
    ensures
        r == is_auth_method_spec(m@),
{
    let list = AUTH_METHODS;
    is_listed(&list, m)
}

/// Whether `m` is a method that the service answers over REST.
pub fn is_rest_method(m: &str) -> (r: bool)
    ensures
        r == is_rest_method_spec(m@),
{
    let list = REST_METHODS;
    is_listed(&list, m)
}

/// The lane of method `m` on a network whose endpoint is `rpc_url`.
pub fn classify(m: &str, rpc_url: &str) -> (r: Lane)
    ensures
        r == lane_of(m@, rpc_url@),
{
    if is_auth_method(m) {
        Lane::Authenticated
    } else if is_rest_method(m) && contains_text(rpc_url, SERVICE_DOMAIN) {
        Lane::Rest
    } else {
        Lane::Plain
    }
}

/// Issues request ids: each id is the previous one plus one, starting from zero.
pub struct RequestIds {
    next: usize,
    issued: Ghost<Seq<usize>>,
}

impl RequestIds {
    /// The ids issued so far, in order.
    pub closed spec fn issued(&self) -> Seq<usize> {
        self.issued@
    }

    /// The id that will be issued next.
    pub closed spec fn next_id(&self) -> usize {
        self.next
    }

    /// The ids issued so far are 0, 1, 2, ... in order, so strictly increasing and all
    /// below the next one.
    pub closed spec fn wf(&self) -> bool {
        &&& self.next == self.issued@.len()
        &&& forall|i: int| 0 <= i < self.issued@.len() ==> #[trigger] self.issued@[i] == i
        &&& forall|i: int, j: int|
            0 <= i < j < self.issued@.len() ==> self.issued@[i] < self.issued@[j]
        &&& forall|i: int| 0 <= i < self.issued@.len() ==> self.issued@[i] < self.next
    }

    /// A counter that has issued nothing.
    pub fn new() -> (r: RequestIds)
        ensures
            r.wf(),
            r.issued() == Seq::<usize>::empty(),
            r.next_id() == 0,
    {
        RequestIds { next: 0, issued: Ghost(Seq::empty()) }
    }

    /// Whether another id can be issued.
    pub fn can_issue(&self) -> (r: bool)
        ensures
            r == (self.next_id() < usize::MAX),
    {
        self.next < usize::MAX
    }

    /// Issues the next id.
    pub fn issue(&mut self) -> (r: usize)
        requires
            old(self).wf(),
            old(self).next_id() < usize::MAX,
        ensures
            final(self).wf(),
            r == old(self).next_id(),
            final(self).next_id() == old(self).next_id() + 1,
            final(self).issued() == old(self).issued().push(r),
    {
        let r = self.next;
        self.issued = Ghost(self.issued@.push(r));
        self.next = self.next + 1;
        r
    }

    /// Ids are never issued twice: those issued so far are 0, 1, 2, ... in order, so
    /// strictly increasing.
    pub proof fn lemma_ids_strictly_increase(&self)
        requires
            self.wf(),
        ensures
            self.next_id() == self.issued().len(),
            forall|i: int| 0 <= i < self.issued().len() ==> #[trigger] self.issued()[i] == i,
            forall|i: int, j: int|
                0 <= i < j < self.issued().len() ==> self.issued()[i] < self.issued()[j],
            forall|i: int, j: int|
                0 <= i < self.issued().len() && 0 <= j < self.issued().len() && i != j
                    ==> self.issued()[i] != self.issued()[j],
            forall|i: int| 0 <= i < self.issued().len() ==> self.issued()[i] < self.next_id(),
    {
        assert forall|i: int, j: int|
            0 <= i < self.issued().len() && 0 <= j < self.issued().len() && i != j implies
            self.issued()[i] != self.issued()[j] by {
            if i < j {
                assert(self.issued@[i] < self.issued@[j]);
            } else {
                assert(self.issued@[j] < self.issued@[i]);
            }
        }
    }
}

/// A single JSON-RPC call.
#[derive(Debug)]
pub struct RequestEnvelope {
    pub id: usize,
    pub method: String,
    pub params: Vec<serde_json::Value>,
}

/// The HTTP method of a request.
#[derive(Clone, Copy, Debug, PartialEq, Eq, Structural)]
pub enum HttpMethod {
    Get,
    Post,
}

/// An HTTP header.
#[derive(Clone, Debug)]
pub struct Header {
    pub name: String,
    pub value: String,
}

/// The HTTP request that carries a call: a `POST` carries `call` as its JSON-RPC body,
/// a `GET` carries the call in its URL.
#[derive(Debug)]
pub struct HttpRequest {
    pub method: HttpMethod,
    pub url: String,
    pub headers: Vec<Header>,
    pub call: Option<RequestEnvelope>,
}

/// The method, URL and headers of an HTTP request.
pub struct RequestShape {
    pub method: HttpMethod,
    pub url: Seq<char>,
    pub headers: Seq<(Seq<char>, Seq<char>)>,
}

/// The names and values of a list of headers.
pub open spec fn header_views(hs: Seq<Header>) -> Seq<(Seq<char>, Seq<char>)> {
    hs.map_values(|h: Header| (h.name@, h.value@))
}

impl HttpRequest {
    /// The method, URL and headers of this request.
    pub open spec fn shape(&self) -> RequestShape {
        RequestShape { method: self.method, url: self.url@, headers: header_views(self.headers@) }
    }
}

/// What `reqwest::Url::parse` makes of `s`: `None` where `s` is no absolute URL, else
/// the URL as the parser writes it back.
pub uninterp spec fn parsed_url(s: Seq<char>) -> Option<Seq<char>>;

/// Relies on `reqwest::Url::parse` (the url crate's WHATWG parser) and on the parsed
/// URL's serialization: both depend on the characters of `s` alone.
#[verifier::external_body]
fn parse_url(s: &str) -> (r: Option<String>)
    ensures
        opt_text(r) == parsed_url(s@),
{
    match reqwest::Url::parse(s) {
        Ok(url) => Some(url.as_str().to_owned()),
        Err(_) => None,
    }
}

/// The value of the bearer-token header for `token`.
pub open spec fn bearer(token: Seq<char>) -> Seq<char> {
    "Bearer "@ + token
}

/// The request of the authenticated lane to endpoint `url` for client `client_id` with
/// access token `token`: a `POST` to the parsed endpoint carrying the bearer token, the
/// API key and the user agent; `None` where the endpoint does not parse or a header
/// value is not valid.
pub open spec fn auth_shape(url: Seq<char>, client_id: Seq<char>, token: Seq<char>) -> Option<
    RequestShape,
> {
    match parsed_url(url) {
        Some(u) => if is_header_text(bearer(token)) && is_header_text(client_id) {
            Some(
                RequestShape {
                    method: HttpMethod::Post,
                    url: u,
                    headers: seq![
                        (AUTHORIZATION_HEADER@, bearer(token)),
                        (API_KEY_HEADER@, client_id),
                        (USER_AGENT_HEADER@, USER_AGENT@),
                    ],
                },
            )
        } else {
            None
        },
        None => None,
    }
}

/// The request of the REST lane: a `GET` of `<url>/<method>?params=<params>` that
/// carries the API key only; `None` where the client id is not a valid header value.
pub open spec fn rest_shape(
    url: Seq<char>,
    client_id: Seq<char>,
    m: Seq<char>,
    params: Seq<char>,
) -> Option<RequestShape> {
    if is_header_text(client_id) {
        Some(
            RequestShape {
                method: HttpMethod::Get,
                url: url + "/"@ + m + "?params="@ + params,
                headers: seq![(API_KEY_HEADER@, client_id)],
            },
        )
    } else {
        None
    }
}

/// The request of the plain lane: a `POST` to the parsed endpoint with the user agent,
/// and with the API key only where the parsed endpoint lies on the service's API host;
/// `None` where the endpoint does not parse or the key it needs is not a valid header
/// value.
pub open spec fn plain_shape(url: Seq<char>, client_id: Seq<char>) -> Option<RequestShape> {
    match parsed_url(url) {
        Some(u) => if contains_seq(u, API_HOST@) {
            if is_header_text(client_id) {
                Some(
                    RequestShape {
                        method: HttpMethod::Post,
                        url: u,
                        headers: seq![(API_KEY_HEADER@, client_id), (USER_AGENT_HEADER@, USER_AGENT@)],
                    },
                )
            } else {
                None
            }
        } else {
            Some(
                RequestShape {
                    method: HttpMethod::Post,
                    url: u,
                    headers: seq![(USER_AGENT_HEADER@, USER_AGENT@)],
                },
            )
        },
        None => None,
    }
}

/// Why a call failed.
#[derive(Clone, Debug, PartialEq, Eq)]
pub enum RouterError {
    /// No access token could be had for an authenticated call.
    AuthenticationFailed(AuthError),
    /// The request could not be sent or its response not read.
    Transport(String),
    /// The server answered with a status outside 200 to 299.
    HttpStatus(u16),
    /// The response body was not the JSON-RPC value expected.
    Deserialization(String),
    /// The node answered the call with a JSON-RPC error.
    Rpc(i64, String),
    /// An endpoint, header or parameter list could not be built.
    Internal,
}

impl RouterError {
    /// The JSON-RPC error code of this error, where it has one: 403 for a failed
    /// authentication, the node's own code for a JSON-RPC error.
    pub fn rpc_code(&self) -> (r: Option<i64>)
        ensures
            match self {
                RouterError::AuthenticationFailed(_) => r == Some(AUTH_FAILED_CODE),
                RouterError::Rpc(code, _) => r == Some(*code),
                _ => r is None,
            },
    {
        match self {
            RouterError::AuthenticationFailed(_) => Some(AUTH_FAILED_CODE),
            RouterError::Rpc(code, _) => Some(*code),
            _ => None,
        }
    }
}

/// What a server sent back for a call, once its body was read.
#[derive(Debug)]
pub enum Reply {
    /// The call's result.
    Value(serde_json::Value),
    /// A JSON-RPC error object.
    RpcError(i64, String),
    /// A body that is not a JSON-RPC reply; the message says why.
    Malformed(String),
}

/// The outcome of a call from the HTTP status of its response and what its body held:
/// a status outside 200 to 299 fails with that status whatever the body.
pub fn response_result(status: u16, reply: Reply) -> (r: Result<serde_json::Value, RouterError>)
    ensures
        !(200 <= status <= 299) ==> r == Err::<serde_json::Value, RouterError>(
            RouterError::HttpStatus(status),
        ),
        200 <= status <= 299 ==> match reply {
            Reply::Value(v) => r == Ok::<serde_json::Value, RouterError>(v),
            Reply::RpcError(code, message) => r == Err::<serde_json::Value, RouterError>(
                RouterError::Rpc(code, message),
            ),
            Reply::Malformed(message) => r == Err::<serde_json::Value, RouterError>(
                RouterError::Deserialization(message),
            ),
        },
{
    if status < 200 || status > 299 {
        return Err(RouterError::HttpStatus(status));
    }
    match reply {
        Reply::Value(v) => Ok(v),
        Reply::RpcError(code, message) => Err(RouterError::Rpc(code, message)),
        Reply::Malformed(message) => Err(RouterError::Deserialization(message)),
    }
}

/// A header.
fn header(name: &str, value: String) -> (r: Header)
    ensures
        r.name@ == name@,
        r.value@ == value@,
{
    Header { name: String::from_str(name), value }
}

/// The request of the authenticated lane (see [`auth_shape`]) carrying `call`.
pub fn auth_request(rpc_url: &str, client_id: &str, token: &str, call: RequestEnvelope) -> (r:
    Result<HttpRequest, RouterError>)
    ensures
        match r {
            Ok(h) => auth_shape(rpc_url@, client_id@, token@) == Some(h.shape()) && h.call == Some(
                call,
            ),
            Err(e) => auth_shape(rpc_url@, client_id@, token@) is None && e
                == RouterError::Internal,
        },
{
    let url = match parse_url(rpc_url) {
        Some(u) => u,
        None => return Err(RouterError::Internal),
    };
    let mut value = String::from_str("Bearer ");
    value.append(token);
    if !is_header_value(value.as_str()) || !is_header_value(client_id) {
        return Err(RouterError::Internal);
    }
    let mut headers: Vec<Header> = Vec::new();
    headers.push(header(AUTHORIZATION_HEADER, value));
    headers.push(header(API_KEY_HEADER, String::from_str(client_id)));
    headers.push(header(USER_AGENT_HEADER, String::from_str(USER_AGENT)));
    let r = HttpRequest { method: HttpMethod::Post, url, headers, call: Some(call) };
    assert(header_views(r.headers@) =~= seq![
        (AUTHORIZATION_HEADER@, bearer(token@)),
        (API_KEY_HEADER@, client_id@),
        (USER_AGENT_HEADER@, USER_AGENT@),
    ]);
    Ok(r)
}

/// The request of the REST lane (see [`rest_shape`]) for a call of `method` whose
/// parameters are written `params`.
pub fn rest_request(rpc_url: &str, client_id: &str, method: &str, params: &str) -> (r: Result<
    HttpRequest,
    RouterError,
>)
    ensures
        match r {
            Ok(h) => rest_shape(rpc_url@, client_id@, method@, params@) == Some(h.shape())
                && h.call is None,
            Err(e) => rest_shape(rpc_url@, client_id@, method@, params@) is None && e
                == RouterError::Internal,
        },
{
    if !is_header_value(client_id) {
        return Err(RouterError::Internal);
    }
    let mut url = String::from_str(rpc_url);
    url.append("/");
    url.append(method);
    url.append("?params=");
    url.append(params);
    let mut headers: Vec<Header> = Vec::new();
    headers.push(header(API_KEY_HEADER, String::from_str(client_id)));
    let r = HttpRequest { method: HttpMethod::Get, url, headers, call: None };
    assert(header_views(r.headers@) =~= seq![(API_KEY_HEADER@, client_id@)]);
    Ok(r)
}

/// The request of the plain lane (see [`plain_shape`]) carrying `call`.
pub fn plain_request(rpc_url: &str, client_id: &str, call: RequestEnvelope) -> (r: Result<
    HttpRequest,
    RouterError,
>)
    ensures
        match r {
            Ok(h) => plain_shape(rpc_url@, client_id@) == Some(h.shape()) && h.call == Some(call),
            Err(e) => plain_shape(rpc_url@, client_id@) is None && e == RouterError::Internal,
        },
{
    let url = match parse_url(rpc_url) {
        Some(u) => u,
        None => return Err(RouterError::Internal),
    };
    let mut headers: Vec<Header> = Vec::new();
    if contains_text(url.as_str(), API_HOST) {
        if !is_header_value(client_id) {
            return Err(RouterError::Internal);
        }
        headers.push(header(API_KEY_HEADER, String::from_str(client_id)));
    }
    headers.push(header(USER_AGENT_HEADER, String::from_str(USER_AGENT)));
    let r = HttpRequest { method: HttpMethod::Post, url, headers, call: Some(call) };
    proof {
        if contains_seq(r.url@, API_HOST@) {
            assert(header_views(r.headers@) =~= seq![
                (API_KEY_HEADER@, client_id@),
                (USER_AGENT_HEADER@, USER_AGENT@),
            ]);
        } else {
            assert(header_views(r.headers@) =~= seq![(USER_AGENT_HEADER@, USER_AGENT@)]);
        }
    }
    Ok(r)
}

} // verus!
