use freenet_core::client_events::admin_endpoints::{
    config_endpoint, health, health_level_str, metrics, network_peers, node_status,
    push_labeled_pair, push_metric, ready, HealthLevel, NatStats, NetworkStatusSnapshot,
    OpCounter, OpStatsSnapshot, PeerSnapshot,
};
use freenet_core::ring::Location;

fn snapshot(health: HealthLevel) -> NetworkStatusSnapshot {
    NetworkStatusSnapshot {
        health,
        version: "0.1.2".to_string(),
        elapsed_secs: 61,
        listening_port: 31337,
        open_connections: 2,
        connection_attempts: 5,
        own_location: Some(Location { bits: 0.25f64.to_bits() }),
        external_address: Some("1.2.3.4:5".to_string()),
        gateway_only: false,
        bytes_uploaded: 10,
        bytes_downloaded: 20,
        contracts: vec!["c".to_string()],
        peers: vec![PeerSnapshot {
            address: "5.6.7.8:9".to_string(),
            is_gateway: true,
            location: None,
            connected_secs: 3,
            bytes_sent: 4,
            bytes_received: 5,
        }],
        op_stats: OpStatsSnapshot {
            gets: (1, 2),
            puts: (3, 4),
            updates: (5, 6),
            subscribes: (7, 8),
            updates_received: 9,
        },
        nat_stats: NatStats {
            attempts: 11,
            successes: 12,
            recent_attempts: 13,
            recent_successes: 14,
        },
    }
}

#[test]
fn nodes_in_trouble_are_not_healthy() {
    for (level, code, word) in [
        (HealthLevel::Healthy, 200, "healthy"),
        (HealthLevel::Degraded, 200, "degraded"),
        (HealthLevel::Connecting, 200, "connecting"),
        (HealthLevel::Trouble, 503, "trouble"),
    ] {
        let s = snapshot(level);
        let (c, body) = health(Some(&s));
        assert_eq!((c, body.status.as_str()), (code, word));
        assert_eq!(body.version, "0.1.2");
        assert_eq!(body.uptime_secs, 61);
        assert!(body.checks.network && body.checks.has_peers);
        assert_eq!(body.checks.network_status, "healthy");
        assert_eq!(body.checks.connected_peers, 2);
        assert_eq!(health_level_str(level), word);
    }
    let (c, body) = health(None);
    assert_eq!((c, body.status.as_str(), body.version.as_str()), (503, "initializing", ""));
    assert!(!body.checks.network && !body.checks.has_peers);
    assert_eq!((body.checks.network_status.as_str(), body.checks.connected_peers), ("unhealthy", 0));
}

#[test]
fn nodes_that_still_connect_are_not_ready() {
    for (level, code) in [
        (HealthLevel::Healthy, 200),
        (HealthLevel::Degraded, 200),
        (HealthLevel::Connecting, 503),
        (HealthLevel::Trouble, 503),
    ] {
        let (c, body) = ready(Some(&snapshot(level)));
        assert_eq!((c, body.ready), (code, code == 200));
    }
    assert_eq!(ready(None).0, 503);
    let mut alone = snapshot(HealthLevel::Healthy);
    alone.open_connections = 0;
    assert_eq!(ready(Some(&alone)).0, 503);
}

#[test]
fn metrics_of_a_running_node() {
    let (content_type, text) =
        metrics(Some(&snapshot(HealthLevel::Degraded)), 100, u64::MAX, 42);
    assert_eq!(content_type, "text/plain; version=0.0.4; charset=utf-8");
    let expected = "\
# HELP freenet_up Whether the node is up
# TYPE freenet_up gauge
freenet_up 1
# HELP freenet_uptime_seconds Node uptime in seconds
# TYPE freenet_uptime_seconds gauge
freenet_uptime_seconds 61
# HELP freenet_peer_connections_total Number of connected peers
# TYPE freenet_peer_connections_total gauge
freenet_peer_connections_total 2
# HELP freenet_connection_attempts_total Total connection attempts
# TYPE freenet_connection_attempts_total counter
freenet_connection_attempts_total 5
# HELP freenet_operations_total Operation counts by type and result
# TYPE freenet_operations_total counter
freenet_operations_total{op=\"get\",result=\"success\"} 1
freenet_operations_total{op=\"get\",result=\"failure\"} 2
freenet_operations_total{op=\"put\",result=\"success\"} 3
freenet_operations_total{op=\"put\",result=\"failure\"} 4
freenet_operations_total{op=\"update\",result=\"success\"} 5
freenet_operations_total{op=\"update\",result=\"failure\"} 6
freenet_operations_total{op=\"subscribe\",result=\"success\"} 7
freenet_operations_total{op=\"subscribe\",result=\"failure\"} 8
# HELP freenet_updates_received_total Broadcast updates received via subscriptions
# TYPE freenet_updates_received_total counter
freenet_updates_received_total 9
# HELP freenet_nat_attempts_total Total NAT traversal attempts
# TYPE freenet_nat_attempts_total counter
freenet_nat_attempts_total 11
# HELP freenet_nat_successes_total Total NAT traversal successes
# TYPE freenet_nat_successes_total counter
freenet_nat_successes_total 12
# HELP freenet_contracts_hosted_count Number of hosted contracts
# TYPE freenet_contracts_hosted_count gauge
freenet_contracts_hosted_count 1
# HELP freenet_health_status Node health (0=healthy, 1=degraded, 2=connecting, 3=trouble)
# TYPE freenet_health_status gauge
freenet_health_status 1
# HELP freenet_bytes_sent_total Cumulative bytes sent
# TYPE freenet_bytes_sent_total counter
freenet_bytes_sent_total 100
# HELP freenet_bytes_received_total Cumulative bytes received
# TYPE freenet_bytes_received_total counter
freenet_bytes_received_total 18446744073709551615
# HELP freenet_admin_api_requests_total Total admin API requests
# TYPE freenet_admin_api_requests_total counter
freenet_admin_api_requests_total 42
";
    assert_eq!(text, expected);
}

#[test]
fn metrics_before_initialisation() {
    let (_, text) = metrics(None, 0, 7, 1);
    let expected = "\
# HELP freenet_up Whether the node is up
# TYPE freenet_up gauge
freenet_up 0
# HELP freenet_bytes_sent_total Cumulative bytes sent
# TYPE freenet_bytes_sent_total counter
freenet_bytes_sent_total 0
# HELP freenet_bytes_received_total Cumulative bytes received
# TYPE freenet_bytes_received_total counter
freenet_bytes_received_total 7
# HELP freenet_admin_api_requests_total Total admin API requests
# TYPE freenet_admin_api_requests_total counter
freenet_admin_api_requests_total 1
";
    assert_eq!(text, expected);
}

#[test]
fn metrics_without_help_have_no_header() {
    let mut out = String::from("x");
    push_metric(&mut out, "m", "gauge", "", 12);
    push_labeled_pair(&mut out, "n", "counter", "", "get", (3, 40));
    assert_eq!(
        out,
        "xm 12\nn{op=\"get\",result=\"success\"} 3\nn{op=\"get\",result=\"failure\"} 40\n"
    );
}

#[test]
fn status_and_peers() {
    let s = snapshot(HealthLevel::Healthy);
    let (c, body) = node_status(Some(&s));
    let body = body.unwrap();
    assert_eq!(c, 200);
    assert_eq!((body.health.as_str(), body.listening_port), ("healthy", 31337));
    assert_eq!(body.external_address.as_deref(), Some("1.2.3.4:5"));
    assert_eq!(body.own_location, s.own_location);
    assert_eq!(body.subscribed_contracts, 1);
    assert_eq!((body.bytes_uploaded, body.bytes_downloaded), (10, 20));
    assert_eq!((body.op_stats.puts.success, body.op_stats.puts.failure), (3, 4));
    assert_eq!(body.nat_stats, s.nat_stats);
    let (c, peers) = network_peers(Some(&s));
    let peers = peers.unwrap();
    assert_eq!((c, peers.total, peers.peers.len()), (200, 1, 1));
    assert_eq!(peers.peers[0].address, "5.6.7.8:9");
    assert!(peers.peers[0].is_gateway);
    assert_eq!(peers.peers[0].bytes_received, 5);
    let config = config_endpoint(Some(&s));
    assert_eq!(config.listening_port, Some(31337));
    assert_eq!(config.version.as_deref(), Some("0.1.2"));
}

#[test]
fn nothing_is_known_before_initialisation() {
    let (c, body) = node_status(None);
    assert_eq!((c, body.unwrap_err().error.as_str()), (503, "node not yet initialized"));
    let (c, body) = network_peers(None);
    assert_eq!((c, body.unwrap_err().error.as_str()), (503, "node not yet initialized"));
    let config = config_endpoint(None);
    assert!(config.listening_port.is_none() && config.version.is_none());
}

#[test]
fn counters_come_from_pairs() {
    let c = OpCounter::from((8, 9));
    assert_eq!((c.success, c.failure), (8, 9));
}
