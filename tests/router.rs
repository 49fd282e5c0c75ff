use bitski::router::{
    auth_request, classify, is_auth_method, is_rest_method, plain_request, response_result,
    rest_request, HttpMethod, HttpRequest, Lane, Reply, RequestEnvelope, RequestIds,
    RouterError, AUTH_METHODS, REST_METHODS,
};
use bitski::tokens::AuthError;

const SERVICE_URL: &str = "https://api.bitski.com/v1/web3/137";
const OTHER_URL: &str = "https://polygon-rpc.com/";

fn envelope(id: usize, method: &str) -> RequestEnvelope {
    RequestEnvelope { id, method: method.to_string(), params: vec![serde_json::Value::from(1)] }
}

fn header<'a>(h: &'a HttpRequest, name: &str) -> Option<&'a str> {
    h.headers.iter().find(|x| x.name == name).map(|x| x.value.as_str())
}

#[test]
fn auth_methods_take_authenticated_lane_everywhere() {
    for m in AUTH_METHODS.iter() {
        assert!(is_auth_method(m));
        assert_eq!(classify(m, SERVICE_URL), Lane::Authenticated);
        assert_eq!(classify(m, OTHER_URL), Lane::Authenticated);
        assert_eq!(classify(m, ""), Lane::Authenticated);
    }
}

#[test]
fn rest_methods_need_service_host() {
    for m in REST_METHODS.iter() {
        assert!(is_rest_method(m));
        assert!(!is_auth_method(m));
        assert_eq!(classify(m, SERVICE_URL), Lane::Rest);
        assert_eq!(classify(m, OTHER_URL), Lane::Plain);
    }
}

#[test]
fn other_methods_take_plain_lane() {
    for m in ["eth_call", "eth_chainId", "eth_getBalance", "ETH_ACCOUNTS", ""] {
        assert!(!is_auth_method(m));
        assert!(!is_rest_method(m));
        assert_eq!(classify(m, SERVICE_URL), Lane::Plain);
        assert_eq!(classify(m, OTHER_URL), Lane::Plain);
    }
}

#[test]
fn classification_is_deterministic() {
    assert_eq!(classify("eth_getLogs", SERVICE_URL), classify("eth_getLogs", SERVICE_URL));
    assert_eq!(classify("eth_sign", OTHER_URL), classify("eth_sign", OTHER_URL));
}

#[test]
fn request_ids_count_up() {
    let mut ids = RequestIds::new();
    assert!(ids.can_issue());
    assert_eq!(ids.issue(), 0);
    assert_eq!(ids.issue(), 1);
    assert_eq!(ids.issue(), 2);
}

#[test]
fn authenticated_request_headers() {
    let h = auth_request(SERVICE_URL, "client-1", "tok", envelope(3, "eth_accounts")).expect("plan");
    assert_eq!(h.method, HttpMethod::Post);
    assert_eq!(h.url, SERVICE_URL);
    assert_eq!(header(&h, "Authorization"), Some("Bearer tok"));
    assert_eq!(header(&h, "X-API-Key"), Some("client-1"));
    assert_eq!(header(&h, "User-Agent"), Some("bitski/0.1.0"));
    assert_eq!(h.call.as_ref().map(|c| c.id), Some(3));
}

#[test]
fn authenticated_request_uses_parsed_url() {
    let h = auth_request("HTTPS://API.BITSKI.COM", "c", "t", envelope(0, "eth_sign")).expect("plan");
    assert_eq!(h.url, "https://api.bitski.com/");
}

#[test]
fn authenticated_request_rejects_bad_input() {
    assert_eq!(
        auth_request("not a url", "c", "t", envelope(0, "eth_sign")).unwrap_err(),
        RouterError::Internal
    );
    assert_eq!(
        auth_request(SERVICE_URL, "c", "bad\ntoken", envelope(0, "eth_sign")).unwrap_err(),
        RouterError::Internal
    );
    assert_eq!(
        auth_request(SERVICE_URL, "bad\rid", "t", envelope(0, "eth_sign")).unwrap_err(),
        RouterError::Internal
    );
}

#[test]
fn rest_request_url_and_headers() {
    let h = rest_request(SERVICE_URL, "client-1", "eth_getLogs", "[1]").expect("plan");
    assert_eq!(h.method, HttpMethod::Get);
    assert_eq!(h.url, "https://api.bitski.com/v1/web3/137/eth_getLogs?params=[1]");
    assert_eq!(h.headers.len(), 1);
    assert_eq!(header(&h, "X-API-Key"), Some("client-1"));
    assert!(h.call.is_none());
    assert_eq!(rest_request(SERVICE_URL, "a\nb", "m", "[]").unwrap_err(), RouterError::Internal);
}

#[test]
fn plain_request_sends_key_only_to_service_host() {
    let h = plain_request(SERVICE_URL, "client-1", envelope(1, "eth_call")).expect("plan");
    assert_eq!(header(&h, "X-API-Key"), Some("client-1"));
    let h = plain_request(OTHER_URL, "client-1", envelope(1, "eth_call")).expect("plan");
    assert_eq!(header(&h, "X-API-Key"), None);
    assert_eq!(header(&h, "User-Agent"), Some("bitski/0.1.0"));
    assert_eq!(h.url, OTHER_URL);
    assert_eq!(
        plain_request("::", "c", envelope(1, "eth_call")).unwrap_err(),
        RouterError::Internal
    );
}

#[test]
fn response_outcomes() {
    let ok = response_result(200, Reply::Value(serde_json::Value::from(5))).expect("ok");
    assert_eq!(ok, serde_json::Value::from(5));
    assert_eq!(
        response_result(404, Reply::Value(serde_json::Value::Null)).unwrap_err(),
        RouterError::HttpStatus(404)
    );
    assert_eq!(
        response_result(199, Reply::Value(serde_json::Value::Null)).unwrap_err(),
        RouterError::HttpStatus(199)
    );
    assert_eq!(
        response_result(299, Reply::Malformed("eof".to_string())).unwrap_err(),
        RouterError::Deserialization("eof".to_string())
    );
    assert_eq!(
        response_result(200, Reply::RpcError(-32000, "boom".to_string())).unwrap_err(),
        RouterError::Rpc(-32000, "boom".to_string())
    );
}

#[test]
fn error_codes() {
    assert_eq!(RouterError::AuthenticationFailed(AuthError::NotSignedIn).rpc_code(), Some(403));
    assert_eq!(RouterError::Rpc(-32601, "x".to_string()).rpc_code(), Some(-32601));
    assert_eq!(RouterError::Internal.rpc_code(), None);
    assert_eq!(RouterError::Transport("down".to_string()).rpc_code(), None);
}
