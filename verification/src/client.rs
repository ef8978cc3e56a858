//! Root client for the top level APIs: a stateless pass-through that gives
//! every generated endpoint builder a single narrow entry point into the
//! request-dispatch layer. No retry or pool logic lives here.

use vstd::prelude::*;
use vstd::string::StringExecFns;
use crate::codec;
use crate::dispatcher::{
    AttemptOutcome, CallState, RetryPolicy, Transport, TransportError, failed_attempt,
    last_wire_failure_of, retryable_status, terminal_error,
};
use crate::http::{Method, Request, Response};
use crate::pool::ConnectionPool;

verus! {

/// Root client for top level APIs.
#[derive(Clone, Debug)]
pub struct Elasticsearch {
    transport: Transport,
}

impl Default for Elasticsearch {
    /// A client for a single local node, with the customary retry defaults.
    fn default() -> (r: Self)
        ensures
            r.transport().pool.wf(),
            r.transport().pool@.len() == 1,
            r.transport().pool@[0].address@ == "http://localhost:9200"@,
            r.transport().pool@[0].liveness is Alive,
            r.transport().policy.max_attempts == 3,
            r.transport().policy.retryable_statuses@ == seq![502u16, 503u16, 504u16],
    {
        let address = String::from_str("http://localhost:9200");
        let mut addresses: Vec<String> = Vec::new();
        addresses.push(address);
        let pool = ConnectionPool::new(addresses, 1000, 6);
        let mut retryable_statuses: Vec<u16> = Vec::new();
        retryable_statuses.push(502);
        retryable_statuses.push(503);
        retryable_statuses.push(504);
        proof {
            assert(retryable_statuses@ =~= seq![502u16, 503u16, 504u16]);
        }
        let policy = RetryPolicy { max_attempts: 3, retryable_statuses };
        Elasticsearch { transport: Transport { pool, policy } }
    }
}

impl Elasticsearch {
    /// Creates a new instance of the root client.
    pub fn new(transport: Transport) -> (r: Self)
        ensures
            r.transport() == transport,
    {
        Elasticsearch { transport }
    }

    /// The underlying request-dispatch layer.
    pub closed spec fn transport(&self) -> Transport {
        self.transport
    }

    /// Constructs the logical request an endpoint builder describes,
    /// serializing the structured query parameters through the parameter
    /// codec into the canonical query string.
    pub fn build_request(
        method: Method,
        path: String,
        headers: Vec<(String, String)>,
        query: Option<Vec<(String, Vec<String>)>>,
        body: Option<Vec<u8>>,
    ) -> (r: Request)
        ensures
            r.method == method,
            r.path == path,
            r.headers == headers,
            r.body == body,
            query is None ==> r.query is None,
            query matches Some(params) ==> r.query matches Some(q) && q@ == codec::join_spec(
                codec::pairs_of(params@),
                '&',
            ),
    {
        let query_string = match query {
            Option::None => Option::None,
            Option::Some(params) => Option::Some(codec::encode_query(&params)),
        };
        Request { method, path, headers, query: query_string, body }
    }

    /// Creates one logical call and runs it to completion against the
    /// cluster, delegating directly to the dispatcher: `outcomes[i]` is what
    /// the `i`-th wire attempt came to. Returns whatever the dispatcher
    /// returns, unchanged: a completed response — whose status, client
    /// errors included, is the caller's to interpret — or the terminal
    /// error of a call that exhausted its attempt budget.
    pub fn send(
        &mut self,
        method: Method,
        path: String,
        headers: Vec<(String, String)>,
        query: Option<Vec<(String, Vec<String>)>>,
        body: Option<Vec<u8>>,
        outcomes: Vec<AttemptOutcome>,
        now: u64,
    ) -> (r: Result<Response, TransportError>)
        requires
            old(self).transport().pool.wf(),
            outcomes@.len() >= old(self).transport().policy.max_attempts,
        ensures
            final(self).transport().pool.wf(),
            final(self).transport().policy == old(self).transport().policy,
            r matches Ok(response) ==> exists|k: int|
                {
                    &&& 1 <= k <= outcomes@.len()
                    &&& #[trigger] outcomes@[k - 1] == (AttemptOutcome::Completed { response })
                    &&& !retryable_status(old(self).transport().policy, response.status)
                    &&& forall|i: int|
                        0 <= i < k - 1 ==> failed_attempt(
                            old(self).transport().policy,
                            #[trigger] outcomes@[i],
                        )
                },
            (forall|i: int|
                0 <= i < outcomes@.len() ==> failed_attempt(
                    old(self).transport().policy,
                    #[trigger] outcomes@[i],
                )) ==> r is Err,
            r matches Err(error) ==> exists|k: int|
                {
                    &&& 0 <= k <= old(self).transport().policy.max_attempts
                    &&& k <= outcomes@.len()
                    &&& old(self).transport().policy.max_attempts >= 1 ==> k >= 1
                    &&& error == terminal_error(last_wire_failure_of(#[trigger] outcomes@.take(k)))
                    &&& forall|i: int|
                        0 <= i < k ==> failed_attempt(
                            old(self).transport().policy,
                            #[trigger] outcomes@[i],
                        )
                },
    {
        // the request is what a wire driver addresses to each selected node;
        // the dispatcher's decisions depend only on the attempt outcomes
        let _request = Self::build_request(method, path, headers, query, body);
        let (terminal, attempts) = self.transport.dispatch(outcomes, now);
        match terminal {
            CallState::Succeeded { response } => Result::Ok(response),
            CallState::Failed { error } => Result::Err(error),
            _ => vstd::pervasive::unreached(),
        }
    }
}

} // verus!
