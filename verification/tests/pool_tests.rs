use elasticsearch::pool::{resurrect_delay, ConnectionPool, Liveness};

fn addresses(n: usize) -> Vec<String> {
    (0..n).map(|i| format!("http://node-{}:9200", i)).collect()
}

#[test]
fn next_cycles_through_alive_nodes_round_robin() {
    let mut pool = ConnectionPool::new(addresses(3), 100, 3);
    assert_eq!(pool.next(), 0);
    assert_eq!(pool.next(), 1);
    assert_eq!(pool.next(), 2);
    assert_eq!(pool.next(), 0);
}

#[test]
fn next_always_returns_a_node_with_single_dead_node() {
    let mut pool = ConnectionPool::new(addresses(1), 100, 3);
    pool.report_failure(0, 0);
    assert_eq!(pool.next(), 0);
    assert_eq!(pool.next(), 0);
}

#[test]
fn next_picks_soonest_deadline_when_all_dead() {
    let mut pool = ConnectionPool::new(addresses(3), 100, 3);
    pool.report_failure(0, 500);
    pool.report_failure(1, 0);
    pool.report_failure(2, 900);
    // every deadline is now + 200; node 1 was failed at the earliest clock
    assert_eq!(pool.next(), 1);
}

#[test]
fn next_skips_dead_node_while_another_is_alive() {
    let mut pool = ConnectionPool::new(addresses(2), 100, 3);
    pool.report_failure(0, 0);
    for _ in 0..10 {
        assert_eq!(pool.next(), 1);
    }
}

#[test]
fn failure_deadline_follows_capped_exponential_backoff() {
    let mut pool = ConnectionPool::new(addresses(1), 100, 3);
    let expected = [200u64, 400, 800, 800, 800];
    for (k, want) in expected.iter().enumerate() {
        pool.report_failure(0, 0);
        assert_eq!(pool.failures_of(0), (k + 1) as u64);
        match pool.liveness_of(0) {
            Liveness::Dead { until } => assert_eq!(until, *want),
            Liveness::Alive => panic!("node must be dead after a reported failure"),
        }
    }
}

#[test]
fn success_resets_liveness_and_counter() {
    let mut pool = ConnectionPool::new(addresses(2), 100, 3);
    pool.report_failure(1, 7);
    pool.report_failure(1, 7);
    assert_eq!(pool.failures_of(1), 2);
    pool.report_success(1);
    assert_eq!(pool.liveness_of(1), Liveness::Alive);
    assert_eq!(pool.failures_of(1), 0);
}

#[test]
fn resurrect_delay_doubles_and_saturates() {
    assert_eq!(resurrect_delay(100, 0), 100);
    assert_eq!(resurrect_delay(100, 1), 200);
    assert_eq!(resurrect_delay(100, 5), 3200);
    assert_eq!(resurrect_delay(u64::MAX / 2 + 1, 1), u64::MAX);
    assert_eq!(resurrect_delay(1, 63), 1u64 << 63);
    assert_eq!(resurrect_delay(1, 64), u64::MAX);
}

#[test]
fn selection_never_changes_liveness() {
    let mut pool = ConnectionPool::new(addresses(3), 100, 3);
    pool.report_failure(2, 0);
    let before: Vec<(Liveness, u64)> = (0..3).map(|i| (pool.liveness_of(i), pool.failures_of(i))).collect();
    pool.next();
    pool.next();
    let after: Vec<(Liveness, u64)> = (0..3).map(|i| (pool.liveness_of(i), pool.failures_of(i))).collect();
    assert_eq!(before, after);
}
