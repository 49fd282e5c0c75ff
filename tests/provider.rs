use bitski::networks::Network;
use bitski::provider::{BatchRun, BatchStep, BitskiProvider, SendStep};
use bitski::router::{HttpMethod, RouterError};
use bitski::tokens::{AccessTokenProvider, AuthError, ClientCredentialsAccessTokenProvider};

fn service() -> Network {
    Network { rpc_url: "https://api.bitski.com/v1/web3/1".to_string(), chain_id: 1 }
}

fn router(tokens: AccessTokenProvider) -> BitskiProvider {
    BitskiProvider::new(&service(), "client-1", tokens)
}

#[test]
fn prepare_issues_increasing_ids() {
    let mut p = router(AccessTokenProvider::Unauthenticated);
    let mut last = None;
    for k in 0..5usize {
        assert!(p.can_prepare());
        let (id, call) = p.prepare("eth_call", vec![]);
        assert_eq!(id, k);
        assert_eq!(call.id, id);
        assert_eq!(call.method, "eth_call");
        if let Some(prev) = last {
            assert!(id > prev);
        }
        last = Some(id);
    }
}

#[test]
fn unauthenticated_fails_authenticated_calls() {
    let mut p = router(AccessTokenProvider::Unauthenticated);
    for m in ["eth_accounts", "eth_sendTransaction", "personal_sign"] {
        let (_, call) = p.prepare(m, vec![]);
        match p.send(call) {
            SendStep::Failed(e) => {
                assert_eq!(e, RouterError::AuthenticationFailed(AuthError::NotSignedIn))
            }
            other => panic!("expected failure, got {:?}", other),
        }
    }
}

#[test]
fn static_token_is_sent_as_bearer() {
    let mut p = router(AccessTokenProvider::Static("tok".to_string()));
    let (_, call) = p.prepare("eth_sign", vec![]);
    match p.send(call) {
        SendStep::Send(h) => {
            assert_eq!(h.method, HttpMethod::Post);
            assert!(h.headers.iter().any(|x| x.name == "Authorization" && x.value == "Bearer tok"));
        }
        other => panic!("expected a request, got {:?}", other),
    }
}

#[test]
fn client_credentials_ask_for_exchange() {
    let creds = ClientCredentialsAccessTokenProvider::new("id".to_string(), "secret".to_string(), None);
    let mut p = router(AccessTokenProvider::ClientCredentials(creds));
    let (id, call) = p.prepare("eth_accounts", vec![]);
    match p.send(call) {
        SendStep::FetchToken(c, pending) => {
            assert_eq!(c.client_id, "id");
            assert_eq!(pending.id, id);
            let h = p.send_with_token(pending, Ok("fresh".to_string())).expect("plan");
            assert!(h.headers.iter().any(|x| x.value == "Bearer fresh"));
        }
        other => panic!("expected an exchange, got {:?}", other),
    }
    let (_, call) = p.prepare("eth_accounts", vec![]);
    let failed = p.send_with_token(call, Err(AuthError::TokenExchange("denied".to_string())));
    assert_eq!(
        failed.unwrap_err(),
        RouterError::AuthenticationFailed(AuthError::TokenExchange("denied".to_string()))
    );
}

#[test]
fn rest_lane_puts_params_in_url() {
    let mut p = router(AccessTokenProvider::Unauthenticated);
    let (_, call) = p.prepare("eth_getBlockByNumber", vec![serde_json::Value::from("latest"), serde_json::Value::from(false)]);
    match p.send(call) {
        SendStep::Send(h) => {
            assert_eq!(h.method, HttpMethod::Get);
            assert_eq!(
                h.url,
                "https://api.bitski.com/v1/web3/1/eth_getBlockByNumber?params=[\"latest\",false]"
            );
        }
        other => panic!("expected a request, got {:?}", other),
    }
}

#[test]
fn plain_lane_posts_call() {
    let mut p = router(AccessTokenProvider::Unauthenticated);
    let (id, call) = p.prepare("eth_chainId", vec![]);
    match p.send(call) {
        SendStep::Send(h) => {
            assert_eq!(h.method, HttpMethod::Post);
            assert_eq!(h.call.map(|c| c.id), Some(id));
        }
        other => panic!("expected a request, got {:?}", other),
    }
}

#[test]
fn batch_keeps_order_and_uses_authenticated_lane() {
    let mut p = router(AccessTokenProvider::Static("tok".to_string()));
    let methods = ["eth_blockNumber", "eth_chainId", "eth_accounts"];
    let calls: Vec<_> = methods.iter().map(|m| p.prepare(m, vec![]).1).collect();
    match p.send_batch(calls) {
        BatchStep::Send(plans) => {
            assert_eq!(plans.len(), 3);
            for (k, plan) in plans.iter().enumerate() {
                let h = plan.as_ref().expect("plan");
                assert_eq!(h.method, HttpMethod::Post);
                assert!(h.headers.iter().any(|x| x.value == "Bearer tok"));
                let c = h.call.as_ref().expect("call");
                assert_eq!(c.id, k);
                assert_eq!(c.method, methods[k]);
            }
        }
        other => panic!("expected requests, got {:?}", other),
    }
}

#[test]
fn batch_with_bad_token_fails_each_call_alone() {
    let mut p = router(AccessTokenProvider::Unauthenticated);
    let calls: Vec<_> = (0..2).map(|_| p.prepare("eth_call", vec![]).1).collect();
    let plans = p.batch_with_token(calls, "bad\ntoken");
    assert_eq!(plans.len(), 2);
    assert!(plans.iter().all(|x| matches!(x, Err(RouterError::Internal))));
}

#[test]
fn unauthenticated_batch_fails() {
    let mut p = router(AccessTokenProvider::Unauthenticated);
    let calls: Vec<_> = (0..2).map(|_| p.prepare("eth_call", vec![]).1).collect();
    match p.send_batch(calls) {
        BatchStep::Failed(e) => {
            assert_eq!(e, RouterError::AuthenticationFailed(AuthError::NotSignedIn))
        }
        other => panic!("expected failure, got {:?}", other),
    }
}

#[test]
fn batch_run_reports_each_position() {
    let mut p = router(AccessTokenProvider::Unauthenticated);
    let first = p.prepare("eth_call", vec![]).1;
    let second = p.prepare("eth_call", vec![]).1;
    let plans = vec![
        Err(RouterError::Internal),
        p.send_with_token(first, Ok("t".to_string())),
        Err(RouterError::AuthenticationFailed(AuthError::NotSignedIn)),
        p.send_with_token(second, Ok("t".to_string())),
    ];
    let mut run = BatchRun::new(plans);
    let h = run.next_request().expect("second position");
    assert_eq!(h.call.as_ref().map(|c| c.id), Some(0));
    run.record(Err(RouterError::HttpStatus(500)));
    let h = run.next_request().expect("fourth position");
    assert_eq!(h.call.as_ref().map(|c| c.id), Some(1));
    run.record(Ok(serde_json::Value::from(7)));
    assert!(run.next_request().is_none());
    let results = run.finish();
    assert_eq!(
        results,
        vec![
            Err(RouterError::Internal),
            Err(RouterError::HttpStatus(500)),
            Err(RouterError::AuthenticationFailed(AuthError::NotSignedIn)),
            Ok(serde_json::Value::from(7)),
        ]
    );
}

#[test]
fn empty_batch_run_finishes_at_once() {
    let mut run = BatchRun::new(vec![]);
    assert!(run.next_request().is_none());
    assert!(run.finish().is_empty());
}

#[test]
fn batch_after_failed_exchange_fails_whole_batch() {
    let creds = ClientCredentialsAccessTokenProvider::new("id".to_string(), "s".to_string(), None);
    let mut p = router(AccessTokenProvider::ClientCredentials(creds));
    let calls: Vec<_> = (0..3).map(|_| p.prepare("eth_call", vec![]).1).collect();
    let pending = match p.send_batch(calls) {
        BatchStep::FetchToken(_, pending) => pending,
        other => panic!("expected an exchange, got {:?}", other),
    };
    assert_eq!(pending.len(), 3);
    let r = p.batch_after_token(pending, Err(AuthError::TokenExchange("denied".to_string())));
    assert_eq!(
        r.unwrap_err(),
        RouterError::AuthenticationFailed(AuthError::TokenExchange("denied".to_string()))
    );
}

#[test]
fn batch_after_token_plans_each_call_in_order() {
    let mut p = router(AccessTokenProvider::Unauthenticated);
    let calls: Vec<_> = ["eth_getLogs", "eth_accounts"].iter().map(|m| p.prepare(m, vec![]).1).collect();
    let plans = p.batch_after_token(calls, Ok("tok".to_string())).expect("plans");
    assert_eq!(plans.len(), 2);
    for (k, plan) in plans.iter().enumerate() {
        let h = plan.as_ref().expect("plan");
        assert_eq!(h.method, HttpMethod::Post);
        assert!(h.headers.iter().any(|x| x.value == "Bearer tok"));
        assert_eq!(h.call.as_ref().map(|c| c.id), Some(k));
    }
}

#[test]
fn rest_lane_with_bad_client_id_fails() {
    let mut p = BitskiProvider::new(&service(), "bad\nid", AccessTokenProvider::Unauthenticated);
    let (_, call) = p.prepare("eth_blockNumber", vec![]);
    assert!(matches!(p.send(call), SendStep::Failed(RouterError::Internal)));
}
