//! The router instance: one network, one client id, one access-token provider and one
//! request id counter shared by all three lanes.
use vstd::prelude::*;

use crate::networks::Network;
use crate::text::is_header_text;
use crate::router::{
    auth_request, auth_shape, classify, lane_of, plain_request, plain_shape, rest_request,
    rest_shape, HttpRequest, Lane, RequestEnvelope, RequestIds, RequestShape, RouterError,
};
use crate::tokens::{
    AccessTokenProvider, AuthError, ClientCredentialsAccessTokenProvider, TokenSourceView,
};

verus! {

#[verifier::external_type_specification]
#[verifier::external_body]
pub struct ExJsonError(serde_json::Error);

/// Relies on `serde_json::to_string` to write the parameters of a call as JSON text for
/// the REST lane's URL. It does not fail on JSON values: their map keys are strings and
/// the text is written into memory. Nothing is assumed of the text itself.
#[verifier::external_body]
fn params_json(params: &Vec<serde_json::Value>) -> (r: Result<String, serde_json::Error>)
    ensures
        r is Ok,
{
    serde_json::to_string(params)
}

/// `r` is what a lane's request builder gives for a call when the request it describes
/// is `shape`: that request carrying the call, or `Internal` where there is none.
pub open spec fn planned(
    shape: Option<RequestShape>,
    r: Result<HttpRequest, RouterError>,
    call: RequestEnvelope,
) -> bool {
    match shape {
        Some(s) => r matches Ok(h) && h.shape() == s && h.call == Some(call),
        None => r == Err::<HttpRequest, RouterError>(RouterError::Internal),
    }
}

/// `r` is the step that sends the request described by `shape` carrying `call`, or the
/// failure `Internal` where there is no such request.
pub open spec fn sends(shape: Option<RequestShape>, r: SendStep, call: RequestEnvelope) -> bool {
    match shape {
        Some(s) => r matches SendStep::Send(h) && h.shape() == s && h.call == Some(call),
        None => r == SendStep::Failed(RouterError::Internal),
    }
}

/// `plans` are the requests of a batch of `calls` over the authenticated lane with one
/// token: one for each call, in the calls' order, each built from its own call alone.
pub open spec fn batch_planned(
    url: Seq<char>,
    client_id: Seq<char>,
    token: Seq<char>,
    calls: Seq<RequestEnvelope>,
    plans: Seq<Result<HttpRequest, RouterError>>,
) -> bool {
    &&& plans.len() == calls.len()
    &&& forall|i: int|
        0 <= i < calls.len() ==> planned(auth_shape(url, client_id, token), #[trigger] plans[i], calls[i])
}

/// Two planned requests describe the same request for the same call, or fail alike.
pub open spec fn same_outcome(
    a: Result<HttpRequest, RouterError>,
    b: Result<HttpRequest, RouterError>,
) -> bool {
    match (a, b) {
        (Ok(h1), Ok(h2)) => h1.shape() == h2.shape() && h1.call == h2.call,
        (Err(e1), Err(e2)) => e1 == e2,
        _ => false,
    }
}

/// A batch keeps its order and its calls apart: the request at each position carries
/// the call at that position, whether it could be built does not depend on the other
/// calls, and two batches that hold the same call at a position get the same request or
/// the same failure there.
pub proof fn lemma_batch_keeps_order(
    url: Seq<char>,
    client_id: Seq<char>,
    token: Seq<char>,
    calls1: Seq<RequestEnvelope>,
    plans1: Seq<Result<HttpRequest, RouterError>>,
    calls2: Seq<RequestEnvelope>,
    plans2: Seq<Result<HttpRequest, RouterError>>,
)
    requires
        batch_planned(url, client_id, token, calls1, plans1),
        batch_planned(url, client_id, token, calls2, plans2),
    ensures
        plans1.len() == calls1.len(),
        forall|i: int|
            0 <= i < calls1.len() ==> (#[trigger] plans1[i] matches Ok(h) ==> h.call == Some(
                calls1[i],
            )),
        forall|i: int|
            0 <= i < calls1.len() ==> ((#[trigger] plans1[i] is Ok) <==> auth_shape(
                url,
                client_id,
                token,
            ) is Some),
        forall|i: int|
            0 <= i < calls1.len() && 0 <= i < calls2.len() && calls1[i] == calls2[i]
                ==> same_outcome(#[trigger] plans1[i], #[trigger] plans2[i]),
{
}

/// What to do next with a call.
#[derive(Debug)]
pub enum SendStep {
    /// Send this request.
    Send(HttpRequest),
    /// Obtain a token by a client-credentials exchange with these credentials, then go
    /// on with [`BitskiProvider::send_with_token`] for this call.
    FetchToken(ClientCredentialsAccessTokenProvider, RequestEnvelope),
    /// The call fails without any request.
    Failed(RouterError),
}

/// What to do next with a batch.
#[derive(Debug)]
pub enum BatchStep {
    /// Send these requests one after the other, in order, each on its own.
    Send(Vec<Result<HttpRequest, RouterError>>),
    /// Obtain a token by a client-credentials exchange with these credentials, then go
    /// on with [`BitskiProvider::batch_after_token`] for these calls.
    FetchToken(ClientCredentialsAccessTokenProvider, Vec<RequestEnvelope>),
    /// The whole batch fails without any request.
    Failed(RouterError),
}

/// Routes JSON-RPC calls on one network to the authenticated, REST or plain lane.
pub struct BitskiProvider {
    pub client_id: String,
    pub network: Network,
    pub auth_token_provider: AccessTokenProvider,
    pub ids: RequestIds,
}

impl BitskiProvider {
    /// The ids issued so far, in order.
    pub closed spec fn issued_ids(&self) -> Seq<usize> {
        self.ids.issued()
    }

    /// The id that the next call will get.
    pub closed spec fn next_id(&self) -> usize {
        self.ids.next_id()
    }

    /// The id counter is well formed.
    pub closed spec fn wf(&self) -> bool {
        self.ids.wf()
    }

    /// A router for `network` that calls as `client_id` and takes its access tokens
    /// from `auth_token_provider`; it has issued no request id yet.
    pub fn new(network: &Network, client_id: &str, auth_token_provider: AccessTokenProvider) -> (r:
        Self)
        ensures
            r.wf(),
            r.network@ == network@,
            r.client_id@ == client_id@,
            r.auth_token_provider == auth_token_provider,
            r.issued_ids() == Seq::<usize>::empty(),
            r.next_id() == 0,
    {
        BitskiProvider {
            client_id: String::from_str(client_id),
            network: Network { rpc_url: network.rpc_url.clone(), chain_id: network.chain_id },
            auth_token_provider,
            ids: RequestIds::new(),
        }
    }

    /// Whether another call can be prepared (the id counter is not exhausted).
    pub fn can_prepare(&self) -> (r: bool)
        ensures
            r == (self.next_id() < usize::MAX),
    {
        self.ids.can_issue()
    }

    /// Wraps a call of `method` with `params` under the next request id.
    pub fn prepare(&mut self, method: &str, params: Vec<serde_json::Value>) -> (r: (
        usize,
        RequestEnvelope,
    ))
        requires
            old(self).wf(),
            old(self).next_id() < usize::MAX,
        ensures
            final(self).wf(),
            r.0 == old(self).next_id(),
            r.1.id == r.0,
            r.1.method@ == method@,
            r.1.params == params,
            final(self).next_id() == old(self).next_id() + 1,
            final(self).issued_ids() == old(self).issued_ids().push(r.0),
            final(self).client_id == old(self).client_id,
            final(self).network == old(self).network,
            final(self).auth_token_provider == old(self).auth_token_provider,
    {
        let id = self.ids.issue();
        (id, RequestEnvelope { id, method: String::from_str(method), params })
    }

    /// The ids that calls got from one router are 0, 1, 2, ... in the order of the
    /// calls: strictly increasing, so none repeats.
    pub proof fn lemma_prepared_ids_increase(&self)
        requires
            self.wf(),
        ensures
            self.next_id() == self.issued_ids().len(),
            forall|i: int| 0 <= i < self.issued_ids().len() ==> #[trigger] self.issued_ids()[i] == i,
            forall|i: int, j: int|
                0 <= i < j < self.issued_ids().len() ==> self.issued_ids()[i]
                    < self.issued_ids()[j],
            forall|i: int|
                0 <= i < self.issued_ids().len() ==> self.issued_ids()[i] < self.next_id(),
    {
        self.ids.lemma_ids_strictly_increase();
    }

    /// The lane that a call of `method` takes on this router's network.
    pub fn route(&self, method: &str) -> (r: Lane)
        ensures
            r == lane_of(method@, self.network.rpc_url@),
    {
        classify(method, self.network.rpc_url.as_str())
    }

    /// The request of the authenticated lane for `call`, once a token was sought:
    /// a token failure fails the call with `AuthenticationFailed` and no request.
    pub fn send_with_token(&self, call: RequestEnvelope, token: Result<String, AuthError>) -> (r:
        Result<HttpRequest, RouterError>)
        ensures
            match token {
                Ok(t) => planned(auth_shape(self.network.rpc_url@, self.client_id@, t@), r, call),
                Err(e) => r == Err::<HttpRequest, RouterError>(
                    RouterError::AuthenticationFailed(e),
                ),
            },
    {
        match token {
            Ok(t) => auth_request(self.network.rpc_url.as_str(), self.client_id.as_str(), t.as_str(), call),
            Err(e) => Err(RouterError::AuthenticationFailed(e)),
        }
    }

    /// The first step of a call: on the authenticated lane a fixed token is used at
    /// once, a provider without credentials fails the call with `NotSignedIn` before any
    /// request, and client credentials ask for an exchange; the REST lane sends the
    /// parameters in the URL; the plain lane posts the call to the endpoint.
    pub fn send(&self, call: RequestEnvelope) -> (r: SendStep)
        ensures
            lane_of(call.method@, self.network.rpc_url@) == Lane::Authenticated ==> match self.auth_token_provider@ {
                TokenSourceView::Static(t) => sends(
                    auth_shape(self.network.rpc_url@, self.client_id@, t),
                    r,
                    call,
                ),
                TokenSourceView::Unauthenticated => r == SendStep::Failed(
                    RouterError::AuthenticationFailed(AuthError::NotSignedIn),
                ),
                TokenSourceView::ClientCredentials(c) => r matches SendStep::FetchToken(x, pending)
                    && x@ == c && pending == call,
            },
            lane_of(call.method@, self.network.rpc_url@) == Lane::Rest ==> if is_header_text(
                self.client_id@,
            ) {
                r matches SendStep::Send(h) && h.call is None && exists|params: Seq<char>|
                    rest_shape(self.network.rpc_url@, self.client_id@, call.method@, params)
                        == Some(h.shape())
            } else {
                r == SendStep::Failed(RouterError::Internal)
            },
            lane_of(call.method@, self.network.rpc_url@) == Lane::Plain ==> sends(
                plain_shape(self.network.rpc_url@, self.client_id@),
                r,
                call,
            ),
    {
        let lane = self.route(call.method.as_str());
        match lane {
            Lane::Authenticated => match &self.auth_token_provider {
                AccessTokenProvider::Static(t) => {
                    match auth_request(self.network.rpc_url.as_str(), self.client_id.as_str(), t.as_str(), call) {
                        Ok(h) => SendStep::Send(h),
                        Err(e) => SendStep::Failed(e),
                    }
                },
                AccessTokenProvider::Unauthenticated => SendStep::Failed(
                    RouterError::AuthenticationFailed(AuthError::NotSignedIn),
                ),
                AccessTokenProvider::ClientCredentials(c) => SendStep::FetchToken(c.duplicate(), call),
            },
            Lane::Rest => {
                let params = match params_json(&call.params) {
                    Ok(p) => p,
                    Err(_) => return SendStep::Failed(RouterError::Internal),
                };
                match rest_request(self.network.rpc_url.as_str(), self.client_id.as_str(), call.method.as_str(), params.as_str()) {
                    Ok(h) => SendStep::Send(h),
                    Err(e) => SendStep::Failed(e),
                }
            },
            Lane::Plain => {
                match plain_request(self.network.rpc_url.as_str(), self.client_id.as_str(), call) {
                    Ok(h) => SendStep::Send(h),
                    Err(e) => SendStep::Failed(e),
                }
            },
        }
    }

    /// The requests of a batch over the authenticated lane with one token, one for each
    /// call and in the calls' order, whatever the calls' methods.
    pub fn batch_with_token(&self, calls: Vec<RequestEnvelope>, token: &str) -> (r: Vec<
        Result<HttpRequest, RouterError>,
    >)
        ensures
            batch_planned(self.network.rpc_url@, self.client_id@, token@, calls@, r@),
    {
        let ghost all = calls@;
        let ghost shape = auth_shape(self.network.rpc_url@, self.client_id@, token@);
        let mut rest = calls;
        let mut r: Vec<Result<HttpRequest, RouterError>> = Vec::new();
        while rest.len() > 0
            invariant
                shape == auth_shape(self.network.rpc_url@, self.client_id@, token@),
                r@.len() + rest@.len() == all.len(),
                rest@ == all.subrange(r@.len() as int, all.len() as int),
                forall|i: int| 0 <= i < r@.len() ==> planned(shape, #[trigger] r@[i], all[i]),
            decreases rest@.len(),
        {
            let ghost k = r@.len() as int;
            let call = rest.remove(0);
            assert(call == all[k]);
            let plan = auth_request(self.network.rpc_url.as_str(), self.client_id.as_str(), token, call);
            r.push(plan);
            assert(rest@ =~= all.subrange(r@.len() as int, all.len() as int));
        }
        r
    }

    /// The requests of a batch once its single token was sought: a token failure fails
    /// the whole batch with `AuthenticationFailed` and no request; a token gives the
    /// requests of [`BitskiProvider::batch_with_token`].
    pub fn batch_after_token(&self, calls: Vec<RequestEnvelope>, token: Result<String, AuthError>) -> (r:
        Result<Vec<Result<HttpRequest, RouterError>>, RouterError>)
        ensures
            match token {
                Ok(t) => r matches Ok(plans) && batch_planned(
                    self.network.rpc_url@,
                    self.client_id@,
                    t@,
                    calls@,
                    plans@,
                ),
                Err(e) => r == Err::<Vec<Result<HttpRequest, RouterError>>, RouterError>(
                    RouterError::AuthenticationFailed(e),
                ),
            },
    {
        match token {
            Ok(t) => Ok(self.batch_with_token(calls, t.as_str())),
            Err(e) => Err(RouterError::AuthenticationFailed(e)),
        }
    }

    /// The first step of a batch: it always goes over the authenticated lane, with a
    /// single token for all its calls; a fixed token is used at once, a provider without
    /// credentials fails the whole batch with `NotSignedIn`, and client credentials ask
    /// for one exchange.
    pub fn send_batch(&self, calls: Vec<RequestEnvelope>) -> (r: BatchStep)
        ensures
            match self.auth_token_provider@ {
                TokenSourceView::Static(t) => r matches BatchStep::Send(plans) && batch_planned(
                    self.network.rpc_url@,
                    self.client_id@,
                    t,
                    calls@,
                    plans@,
                ),
                TokenSourceView::Unauthenticated => r == BatchStep::Failed(
                    RouterError::AuthenticationFailed(AuthError::NotSignedIn),
                ),
                TokenSourceView::ClientCredentials(c) => r matches BatchStep::FetchToken(x, pending)
                    && x@ == c && pending == calls,
            },
    {
        match &self.auth_token_provider {
            AccessTokenProvider::Static(t) => BatchStep::Send(self.batch_with_token(calls, t.as_str())),
            AccessTokenProvider::Unauthenticated => BatchStep::Failed(
                RouterError::AuthenticationFailed(AuthError::NotSignedIn),
            ),
            AccessTokenProvider::ClientCredentials(c) => BatchStep::FetchToken(c.duplicate(), calls),
        }
    }
}

/// The number of requests of `plans` before position `i` that could be built (and so
/// are sent).
pub open spec fn built_before(plans: Seq<Result<HttpRequest, RouterError>>, i: int) -> nat
    decreases i,
{
    if i <= 0 {
        0
    } else {
        built_before(plans, i - 1) + if plans[i - 1] is Ok { 1nat } else { 0nat }
    }
}

/// The outcome that belongs at position `i` of a batch whose requests are `plans`, when
/// `replies` are the outcomes of the requests that were sent, in the order sent: the
/// request's own failure where it could not be built, else the reply to it.
pub open spec fn outcome_at(
    plans: Seq<Result<HttpRequest, RouterError>>,
    replies: Seq<Result<serde_json::Value, RouterError>>,
    i: int,
) -> Result<serde_json::Value, RouterError> {
    match plans[i] {
        Err(e) => Err(e),
        Ok(_) => replies[built_before(plans, i) as int],
    }
}

/// Collects the outcomes of a batch in order while its requests are sent one at a
/// time: a request that could not be built yields its own failure at its position, and
/// the outcome of each request that is sent goes to that request's position.
pub struct BatchRun {
    pending: Vec<Result<HttpRequest, RouterError>>,
    results: Vec<Result<serde_json::Value, RouterError>>,
    awaiting: bool,
    plans: Ghost<Seq<Result<HttpRequest, RouterError>>>,
    replies: Ghost<Seq<Result<serde_json::Value, RouterError>>>,
}

impl BatchRun {
    /// The batch's requests, in order.
    pub closed spec fn plans(&self) -> Seq<Result<HttpRequest, RouterError>> {
        self.plans@
    }

    /// The outcomes collected so far, in order.
    pub closed spec fn results(&self) -> Seq<Result<serde_json::Value, RouterError>> {
        self.results@
    }

    /// The outcomes recorded for the requests handed out so far, in the order sent.
    pub closed spec fn replies(&self) -> Seq<Result<serde_json::Value, RouterError>> {
        self.replies@
    }

    /// A request was handed out and its outcome is awaited.
    pub closed spec fn awaiting(&self) -> bool {
        self.awaiting
    }

    /// The outcomes so far line up with the requests: each position holds the outcome
    /// that belongs there (see [`outcome_at`]), every request before the current
    /// position that could be built has been handed out and answered, and the requests
    /// not yet handed out are the rest of the batch.
    pub closed spec fn wf(&self) -> bool {
        let done = self.results@.len() + if self.awaiting { 1int } else { 0int };
        &&& done + self.pending@.len() == self.plans@.len()
        &&& self.pending@ == self.plans@.subrange(done, self.plans@.len() as int)
        &&& self.replies@.len() == built_before(self.plans@, self.results@.len() as int)
        &&& forall|i: int|
            0 <= i < self.results@.len() ==> #[trigger] self.results@[i] == outcome_at(
                self.plans@,
                self.replies@,
                i,
            )
        &&& self.awaiting ==> self.plans@[self.results@.len() as int] is Ok
    }

    /// A run of the batch `plans` with nothing sent yet.
    pub fn new(plans: Vec<Result<HttpRequest, RouterError>>) -> (r: BatchRun)
        ensures
            r.wf(),
            r.plans() == plans@,
            r.results() == Seq::<Result<serde_json::Value, RouterError>>::empty(),
            r.replies() == Seq::<Result<serde_json::Value, RouterError>>::empty(),
            !r.awaiting(),
    {
        let ghost all = plans@;
        let r = BatchRun {
            pending: plans,
            results: Vec::new(),
            awaiting: false,
            plans: Ghost(all),
            replies: Ghost(Seq::empty()),
        };
        assert(r.pending@ == all.subrange(0, all.len() as int));
        r
    }

    /// The next request to send, in batch order; requests that could not be built are
    /// passed over, each with its own failure at its position, and no built request is
    /// passed over. `None` once every position has its outcome.
    pub fn next_request(&mut self) -> (r: Option<HttpRequest>)
        requires
            old(self).wf(),
            !old(self).awaiting(),
        ensures
            final(self).wf(),
            final(self).plans() == old(self).plans(),
            final(self).replies() == old(self).replies(),
            old(self).results().len() <= final(self).results().len(),
            final(self).results().subrange(0, old(self).results().len() as int) == old(self).results(),
            forall|i: int|
                old(self).results().len() <= i < final(self).results().len()
                    ==> (final(self).plans()[i] matches Err(e)
                    && #[trigger] final(self).results()[i] == Err::<serde_json::Value, RouterError>(e)),
            match r {
                Some(h) => final(self).awaiting() && final(self).plans()[final(self).results().len() as int]
                    == Ok::<HttpRequest, RouterError>(h),
                None => !final(self).awaiting() && final(self).results().len() == final(self).plans().len(),
            },
    {
        let ghost start = self.results@;
        while self.pending.len() > 0
            invariant
                self.wf(),
                !self.awaiting,
                self.plans@ == old(self).plans@,
                self.replies@ == old(self).replies@,
                start == old(self).results@,
                start.len() <= self.results@.len(),
                self.results@.subrange(0, start.len() as int) == start,
                forall|i: int|
                    start.len() <= i < self.results@.len() ==> (self.plans@[i] matches Err(e)
                        && #[trigger] self.results@[i] == Err::<serde_json::Value, RouterError>(e)),
            decreases self.pending@.len(),
        {
            let ghost k = self.results@.len() as int;
            let ghost before = self.results@;
            let plan = self.pending.remove(0);
            assert(plan == self.plans@[k]);
            match plan {
                Ok(h) => {
                    self.awaiting = true;
                    assert(self.pending@ =~= self.plans@.subrange(k + 1, self.plans@.len() as int));
                    return Some(h);
                },
                Err(e) => {
                    self.results.push(Err(e));
                    assert(built_before(self.plans@, k + 1) == built_before(self.plans@, k));
                    assert(self.results@.subrange(0, start.len() as int) =~= before.subrange(0, start.len() as int));
                    assert(self.pending@ =~= self.plans@.subrange(k + 1, self.plans@.len() as int));
                    assert forall|i: int| 0 <= i < self.results@.len() implies #[trigger] self.results@[i]
                        == outcome_at(self.plans@, self.replies@, i) by {
                        if i < k {
                            assert(self.results@[i] == before[i]);
                        }
                    }
                },
            }
        }
        None
    }

    /// Records the outcome of the request last handed out, at that request's position.
    pub fn record(&mut self, outcome: Result<serde_json::Value, RouterError>)
        requires
            old(self).wf(),
            old(self).awaiting(),
        ensures
            final(self).wf(),
            !final(self).awaiting(),
            final(self).plans() == old(self).plans(),
            final(self).results() == old(self).results().push(outcome),
            final(self).replies() == old(self).replies().push(outcome),
    {
        let ghost k = self.results@.len() as int;
        let ghost before = self.results@;
        self.results.push(outcome);
        self.replies = Ghost(self.replies@.push(outcome));
        self.awaiting = false;
        assert(built_before(self.plans@, k + 1) == built_before(self.plans@, k) + 1);
        assert forall|i: int| 0 <= i < self.results@.len() implies #[trigger] self.results@[i]
            == outcome_at(self.plans@, self.replies@, i) by {
            if i < k {
                assert(self.results@[i] == before[i]);
                if self.plans@[i] is Ok {
                    lemma_built_before_grows(self.plans@, i + 1, k);
                }
            }
        }
    }

    /// The outcomes of the whole batch, in the batch's order: at each position the
    /// request's own failure where it could not be built, else the reply recorded for it.
    pub fn finish(self) -> (r: Vec<Result<serde_json::Value, RouterError>>)
        requires
            self.wf(),
            !self.awaiting(),
            self.results().len() == self.plans().len(),
        ensures
            r@.len() == self.plans().len(),
            forall|i: int| 0 <= i < r@.len() ==> #[trigger] r@[i] == outcome_at(self.plans(), self.replies(), i),
            self.replies().len() == built_before(self.plans(), self.plans().len() as int),
    {
        self.results
    }

    /// Every position of a batch reports its own outcome, in order: a request that
    /// could not be built fails at its own position, and the reply to the k-th request
    /// sent stands at that request's position, whatever became of the others.
    pub proof fn lemma_outcomes_in_order(&self)
        requires
            self.wf(),
        ensures
            self.results().len() <= self.plans().len(),
            forall|i: int|
                0 <= i < self.results().len() ==> (#[trigger] self.plans()[i] matches Err(e)
                    ==> self.results()[i] == Err::<serde_json::Value, RouterError>(e)),
            forall|i: int|
                0 <= i < self.results().len() ==> (#[trigger] self.plans()[i] is Ok
                    ==> self.results()[i] == self.replies()[built_before(self.plans(), i) as int]),
    {
        assert forall|i: int| 0 <= i < self.results().len() implies (#[trigger] self.plans()[i] matches Err(e)
            ==> self.results()[i] == Err::<serde_json::Value, RouterError>(e)) by {
            assert(self.results@[i] == outcome_at(self.plans@, self.replies@, i));
        }
        assert forall|i: int| 0 <= i < self.results().len() implies (#[trigger] self.plans()[i] is Ok
            ==> self.results()[i] == self.replies()[built_before(self.plans(), i) as int]) by {
            assert(self.results@[i] == outcome_at(self.plans@, self.replies@, i));
        }
    }
}

/// Counting built requests never goes down, and a built request at position `i - 1`
/// counts before every later position.
proof fn lemma_built_before_grows(plans: Seq<Result<HttpRequest, RouterError>>, i: int, j: int)
    requires
        1 <= i <= j,
        plans[i - 1] is Ok,
    ensures
        built_before(plans, i - 1) < built_before(plans, j),
    decreases j - i,
{
    if i < j {
        lemma_built_before_grows(plans, i, j - 1);
    }
}

} // verus!
