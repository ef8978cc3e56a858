use elasticsearch::client::Elasticsearch;
use elasticsearch::dispatcher::{
    AttemptOutcome, CallState, RetryPolicy, Transport, TransportError, WireFailure,
};
use elasticsearch::http::{Method, Response};
use elasticsearch::pool::{ConnectionPool, Liveness};

fn addresses(n: usize) -> Vec<String> {
    (0..n).map(|i| format!("http://node-{}:9200", i)).collect()
}

fn policy(max_attempts: u64) -> RetryPolicy {
    RetryPolicy { max_attempts, retryable_statuses: vec![502, 503, 504] }
}

fn completed(status: u16) -> AttemptOutcome {
    AttemptOutcome::Completed {
        response: Response { status, headers: Vec::new(), body: Vec::new() },
    }
}

fn wire_failure(kind: WireFailure) -> AttemptOutcome {
    AttemptOutcome::Failure { kind }
}

#[test]
fn three_failing_nodes_fail_after_exactly_three_attempts() {
    let pool = ConnectionPool::new(addresses(3), 100, 3);
    let mut transport = Transport::new(pool, policy(3));
    let outcomes = vec![
        wire_failure(WireFailure::TimedOut),
        wire_failure(WireFailure::TimedOut),
        wire_failure(WireFailure::TimedOut),
    ];
    let (terminal, attempts) = transport.dispatch(outcomes, 0);
    assert_eq!(attempts, 3);
    match terminal {
        CallState::Failed { error } => match error {
            TransportError::Transport { kind } => assert_eq!(kind, WireFailure::TimedOut),
            other => panic!("expected a transport error, got {:?}", other),
        },
        other => panic!("expected a failed call, got {:?}", other),
    }
}

#[test]
fn single_node_call_is_exhausted_before_the_attempt_budget() {
    // With one known node, selecting it a second time exhausts the call even
    // though the attempt budget would allow more.
    let pool = ConnectionPool::new(addresses(1), 100, 3);
    let mut transport = Transport::new(pool, policy(3));
    let outcomes = vec![
        wire_failure(WireFailure::Refused),
        wire_failure(WireFailure::Refused),
        wire_failure(WireFailure::Refused),
    ];
    let (terminal, attempts) = transport.dispatch(outcomes, 0);
    assert_eq!(attempts, 1);
    assert!(matches!(terminal, CallState::Failed { .. }));
}

#[test]
fn zero_attempt_budget_fails_with_no_available_node() {
    let pool = ConnectionPool::new(addresses(2), 100, 3);
    let mut transport = Transport::new(pool, policy(0));
    let (terminal, attempts) = transport.dispatch(Vec::new(), 0);
    assert_eq!(attempts, 0);
    match terminal {
        CallState::Failed { error } => {
            assert!(matches!(error, TransportError::NoAvailableNode))
        },
        other => panic!("expected a failed call, got {:?}", other),
    }
}

#[test]
fn exhausting_retryable_statuses_fails_with_no_available_node() {
    // no transport-level failure ever occurred, so the terminal error names
    // the pool, not a wire error
    let pool = ConnectionPool::new(addresses(2), 100, 3);
    let mut transport = Transport::new(pool, policy(2));
    let outcomes = vec![completed(503), completed(503)];
    let (terminal, attempts) = transport.dispatch(outcomes, 0);
    assert_eq!(attempts, 2);
    match terminal {
        CallState::Failed { error } => {
            assert!(matches!(error, TransportError::NoAvailableNode))
        },
        other => panic!("expected a failed call, got {:?}", other),
    }
}

#[test]
fn status_404_is_returned_as_success_and_not_retried() {
    let pool = ConnectionPool::new(addresses(2), 100, 3);
    let mut transport = Transport::new(pool, policy(2));
    let outcomes = vec![completed(404), completed(200)];
    let (terminal, attempts) = transport.dispatch(outcomes, 0);
    assert_eq!(attempts, 1);
    match terminal {
        CallState::Succeeded { response } => assert_eq!(response.status, 404),
        other => panic!("expected success, got {:?}", other),
    }
    // the node that answered 404 is healthy: reported as success
    assert_eq!(transport.pool.liveness_of(0), Liveness::Alive);
    assert_eq!(transport.pool.failures_of(0), 0);
}

#[test]
fn status_503_triggers_retry_on_a_different_node() {
    let pool = ConnectionPool::new(addresses(2), 100, 3);
    let mut transport = Transport::new(pool, policy(2));
    let state = transport.start_call();
    let sending = transport.select_step(state);
    let first_node = match &sending {
        CallState::Sending { node, .. } => *node,
        other => panic!("expected a sending state, got {:?}", other),
    };
    let after = transport.outcome_step(sending, completed(503), 0);
    assert!(matches!(after, CallState::Retrying { .. }));
    assert!(matches!(transport.pool.liveness_of(first_node), Liveness::Dead { .. }));
    let resumed = elasticsearch::dispatcher::resume(after);
    let sending_again = transport.select_step(resumed);
    match sending_again {
        CallState::Sending { node, .. } => assert_ne!(node, first_node),
        other => panic!("expected a sending state, got {:?}", other),
    }
}

#[test]
fn traffic_converges_to_the_succeeding_node() {
    // One always-failing node, one always-succeeding node: after the first
    // call marks the failing node dead, every further call selects the
    // succeeding node on its first attempt.
    let pool = ConnectionPool::new(addresses(2), 1_000_000, 3);
    let mut transport = Transport::new(pool, policy(2));
    let first = vec![wire_failure(WireFailure::Refused), completed(200)];
    let (terminal, attempts) = transport.dispatch(first, 0);
    assert!(matches!(terminal, CallState::Succeeded { .. }));
    assert_eq!(attempts, 2);
    for _ in 0..12 {
        let state = transport.start_call();
        let sending = transport.select_step(state);
        match &sending {
            CallState::Sending { node, .. } => assert_eq!(*node, 1),
            other => panic!("expected a sending state, got {:?}", other),
        }
        let after = transport.outcome_step(sending, completed(200), 1);
        assert!(matches!(after, CallState::Succeeded { .. }));
    }
    assert!(matches!(transport.pool.liveness_of(0), Liveness::Dead { .. }));
}

#[test]
fn cancelled_call_leaves_liveness_counters_unchanged() {
    let pool = ConnectionPool::new(addresses(3), 100, 3);
    let mut transport = Transport::new(pool, policy(3));
    let state = transport.start_call();
    let sending = transport.select_step(state);
    assert!(matches!(sending, CallState::Sending { .. }));
    // the caller abandons the in-flight attempt: the state is dropped and no
    // outcome is ever reported
    drop(sending);
    for i in 0..3 {
        assert_eq!(transport.pool.liveness_of(i), Liveness::Alive);
        assert_eq!(transport.pool.failures_of(i), 0);
    }
}

#[test]
fn retryable_statuses_are_the_configured_server_errors() {
    let pool = ConnectionPool::new(addresses(1), 100, 3);
    let transport = Transport::new(pool, policy(3));
    assert!(transport.is_retryable_status(502));
    assert!(transport.is_retryable_status(503));
    assert!(transport.is_retryable_status(504));
    assert!(!transport.is_retryable_status(500));
    assert!(!transport.is_retryable_status(404));
    assert!(!transport.is_retryable_status(200));
}

#[test]
fn client_send_returns_the_completed_response() {
    let pool = ConnectionPool::new(addresses(2), 100, 3);
    let transport = Transport::new(pool, policy(2));
    let mut client = Elasticsearch::new(transport);
    let outcomes = vec![completed(200), completed(200)];
    let result = client.send(
        Method::Get,
        "/_cat/nodes".to_string(),
        Vec::new(),
        Some(vec![("format".to_string(), vec!["json".to_string()])]),
        None,
        outcomes,
        0,
    );
    match result {
        Ok(response) => assert_eq!(response.status, 200),
        Err(error) => panic!("expected a response, got {:?}", error),
    }
}

#[test]
fn client_send_surfaces_the_last_transport_error() {
    let pool = ConnectionPool::new(addresses(2), 100, 3);
    let transport = Transport::new(pool, policy(2));
    let mut client = Elasticsearch::new(transport);
    let outcomes = vec![
        wire_failure(WireFailure::Refused),
        wire_failure(WireFailure::Reset),
    ];
    let result = client.send(
        Method::Post,
        "/index/_doc".to_string(),
        Vec::new(),
        None,
        Some(b"{}".to_vec()),
        outcomes,
        0,
    );
    match result {
        Err(TransportError::Transport { kind }) => assert_eq!(kind, WireFailure::Reset),
        other => panic!("expected the last transport error, got {:?}", other),
    }
}

#[test]
fn default_client_knows_one_local_node() {
    let mut client = Elasticsearch::default();
    let outcomes = vec![completed(200), completed(200), completed(200)];
    let result = client.send(
        Method::Head,
        "/".to_string(),
        Vec::new(),
        None,
        None,
        outcomes,
        0,
    );
    assert_eq!(result.unwrap().status, 200);
}

#[test]
fn build_request_serializes_the_query_through_the_codec() {
    let request = Elasticsearch::build_request(
        Method::Get,
        "/_cat/nodes".to_string(),
        vec![("accept".to_string(), "text/plain".to_string())],
        Some(vec![
            ("h".to_string(), vec!["ip".to_string(), "port".to_string()]),
            ("format".to_string(), vec!["json".to_string()]),
        ]),
        None,
    );
    assert_eq!(request.query.as_deref(), Some("h=ip,port&format=json"));
    assert_eq!(request.path, "/_cat/nodes");
    assert!(request.body.is_none());
}
