//! Answers of the admin REST endpoints: health and readiness probes, metrics in
//! text exposition format, node status, peers and configuration.
//!
//! Each endpoint is a function from a snapshot of the network status (`None`
//! until the node is initialised) to a status code and a body. Mounting the
//! routes under `/admin/` and writing the bodies as JSON is left to the caller.
use crate::ring::Location;
use crate::text::{decimal, push_decimal};
use vstd::prelude::*;

verus! {

/// HTTP status of a request that was served.
pub const STATUS_OK: u16 = 200;

/// HTTP status of a node that cannot serve.
pub const STATUS_SERVICE_UNAVAILABLE: u16 = 503;

/// How well the node is doing.
#[derive(Clone, Copy, Debug, PartialEq, Eq, Structural)]
pub enum HealthLevel {
    Healthy,
    Degraded,
    Connecting,
    Trouble,
}

/// Operations counted by type, each as successes and failures.
#[derive(Clone, Copy, Debug)]
pub struct OpStatsSnapshot {
    pub gets: (u32, u32),
    pub puts: (u32, u32),
    pub updates: (u32, u32),
    pub subscribes: (u32, u32),
    pub updates_received: u32,
}

/// A connected peer.
#[derive(Debug)]
pub struct PeerSnapshot {
    pub address: String,
    pub is_gateway: bool,
    pub location: Option<Location>,
    pub connected_secs: u64,
    pub bytes_sent: u64,
    pub bytes_received: u64,
}

/// What is known of the node at one moment.
#[derive(Debug)]
pub struct NetworkStatusSnapshot {
    pub health: HealthLevel,
    pub version: String,
    pub elapsed_secs: u64,
    pub listening_port: u16,
    pub open_connections: u32,
    pub connection_attempts: u32,
    pub own_location: Option<Location>,
    pub external_address: Option<String>,
    pub gateway_only: bool,
    pub bytes_uploaded: u64,
    pub bytes_downloaded: u64,
    pub contracts: Vec<String>,
    pub peers: Vec<PeerSnapshot>,
    pub op_stats: OpStatsSnapshot,
    pub nat_stats: NatStats,
}

/// NAT traversal counts.
#[derive(Clone, Copy, Debug, PartialEq, Eq, Structural)]
pub struct NatStats {
    pub attempts: u32,
    pub successes: u32,
    pub recent_attempts: u32,
    pub recent_successes: u32,
}

// ---------------------------------------------------------------------------
// Health level
// ---------------------------------------------------------------------------

/// The word for a health level.
pub open spec fn health_word(level: HealthLevel) -> Seq<char> {
    match level {
        HealthLevel::Healthy => "healthy"@,
        HealthLevel::Degraded => "degraded"@,
        HealthLevel::Connecting => "connecting"@,
        HealthLevel::Trouble => "trouble"@,
    }
}

/// The number that stands for a health level in the metrics.
pub open spec fn health_number(level: HealthLevel) -> nat {
    match level {
        HealthLevel::Healthy => 0,
        HealthLevel::Degraded => 1,
        HealthLevel::Connecting => 2,
        HealthLevel::Trouble => 3,
    }
}

/// The word for a health level.
pub fn health_level_str(level: HealthLevel) -> (s: String)
    ensures
        s@ == health_word(level),
{
    match level {
        HealthLevel::Healthy => "healthy".to_owned(),
        HealthLevel::Degraded => "degraded".to_owned(),
        HealthLevel::Connecting => "connecting".to_owned(),
        HealthLevel::Trouble => "trouble".to_owned(),
    }
}

// ---------------------------------------------------------------------------
// GET /admin/health
// ---------------------------------------------------------------------------

/// The checks behind a health answer.
#[derive(Debug)]
pub struct HealthChecks {
    pub network: bool,
    pub has_peers: bool,
    /// The word for the check of the network.
    pub network_status: String,
    pub connected_peers: u32,
}

/// The word for a check.
pub open spec fn check_word(passed: bool) -> Seq<char> {
    if passed {
        "healthy"@
    } else {
        "unhealthy"@
    }
}

/// The word for a check.
fn check_status(passed: bool) -> (s: String)
    ensures
        s@ == check_word(passed),
{
    if passed {
        "healthy".to_owned()
    } else {
        "unhealthy".to_owned()
    }
}

/// The body of a health answer.
#[derive(Debug)]
pub struct HealthResponse {
    pub status: String,
    pub version: String,
    pub uptime_secs: u64,
    pub checks: HealthChecks,
}

/// Liveness probe: 200 if the network status has been initialised and the node
/// is not in trouble, 503 otherwise.
pub fn health(snap: Option<&NetworkStatusSnapshot>) -> (r: (u16, HealthResponse))
    ensures
        r.0 == health_code(snap),
        r.0 == (if snap is Some && snap->0.health != HealthLevel::Trouble {
            STATUS_OK
        } else {
            STATUS_SERVICE_UNAVAILABLE
        }),
        snap is Some ==> {
            &&& r.1.status@ == health_word(snap->0.health)
            &&& r.1.version@ == snap->0.version@
            &&& r.1.uptime_secs == snap->0.elapsed_secs
            &&& r.1.checks.network == (snap->0.open_connections > 0)
            &&& r.1.checks.has_peers == (snap->0.peers@.len() > 0)
            &&& r.1.checks.network_status@ == check_word(snap->0.open_connections > 0)
            &&& r.1.checks.connected_peers == snap->0.open_connections
        },
        snap is None ==> {
            &&& r.1.status@ == "initializing"@
            &&& r.1.version@ == Seq::<char>::empty()
            &&& r.1.uptime_secs == 0
            &&& !r.1.checks.network && !r.1.checks.has_peers
            &&& r.1.checks.network_status@ == check_word(false)
            &&& r.1.checks.connected_peers == 0
        },
{
    match snap {
        Some(s) => {
            let code: u16 = match s.health {
                HealthLevel::Trouble => STATUS_SERVICE_UNAVAILABLE,
                _ => STATUS_OK,
            };
            (
                code,
                HealthResponse {
                    status: health_level_str(s.health),
                    version: s.version.clone(),
                    uptime_secs: s.elapsed_secs,
                    checks: HealthChecks {
                        network: s.open_connections > 0,
                        has_peers: s.peers.len() > 0,
                        network_status: check_status(s.open_connections > 0),
                        connected_peers: s.open_connections,
                    },
                },
            )
        },
        None => (
            STATUS_SERVICE_UNAVAILABLE,
            HealthResponse {
                status: "initializing".to_owned(),
                version: String::new(),
                uptime_secs: 0,
                checks: HealthChecks {
                    network: false,
                    has_peers: false,
                    network_status: check_status(false),
                    connected_peers: 0,
                },
            },
        ),
    }
}

// ---------------------------------------------------------------------------
// GET /admin/ready
// ---------------------------------------------------------------------------

/// The body of a readiness answer.
#[derive(Clone, Copy, Debug, PartialEq, Eq, Structural)]
pub struct ReadyResponse {
    pub ready: bool,
}

/// The node can serve: it has a peer connection, and it is healthy or degraded,
/// but functional.
pub open spec fn is_ready(snap: Option<&NetworkStatusSnapshot>) -> bool {
    snap is Some && snap->0.open_connections > 0 && (snap->0.health == HealthLevel::Healthy
        || snap->0.health == HealthLevel::Degraded)
}

/// Readiness probe: 200 only when the node has a peer connection and is healthy
/// or degraded, 503 while it is still connecting, in trouble or not initialised.
pub fn ready(snap: Option<&NetworkStatusSnapshot>) -> (r: (u16, ReadyResponse))
    ensures
        r.1.ready == is_ready(snap),
        r.0 == ready_code(snap),
        r.0 == (if is_ready(snap) {
            STATUS_OK
        } else {
            STATUS_SERVICE_UNAVAILABLE
        }),
{
    let is_ready = match snap {
        Some(s) => s.open_connections > 0 && match s.health {
            HealthLevel::Healthy => true,
            HealthLevel::Degraded => true,
            _ => false,
        },
        None => false,
    };
    let code: u16 = if is_ready {
        STATUS_OK
    } else {
        STATUS_SERVICE_UNAVAILABLE
    };
    (code, ReadyResponse { ready: is_ready })
}

/// A node that is ready is alive: the liveness probe never turns away a node
/// that the readiness probe lets through.
pub proof fn ready_implies_healthy(snap: Option<&NetworkStatusSnapshot>)
    requires
        is_ready(snap),
    ensures
        snap is Some && snap->0.health != HealthLevel::Trouble,
{
}

// ---------------------------------------------------------------------------
// GET /admin/metrics
// ---------------------------------------------------------------------------

/// The content type of the metrics text.
pub open spec fn metrics_content_type_text() -> Seq<char> {
    "text/plain; version=0.0.4; charset=utf-8"@
}

/// The two comment lines that introduce a metric, or nothing where the help
/// text is empty.
pub open spec fn header_text(name: Seq<char>, typ: Seq<char>, help: Seq<char>) -> Seq<char> {
    if help.len() == 0 {
        Seq::<char>::empty()
    } else {
        "# HELP "@ + name + " "@ + help + "\n"@ + "# TYPE "@ + name + " "@ + typ + "\n"@
    }
}

/// A metric: its introduction and one sample line.
pub open spec fn metric_text(
    name: Seq<char>,
    typ: Seq<char>,
    help: Seq<char>,
    value: nat,
) -> Seq<char> {
    header_text(name, typ, help) + name + " "@ + decimal(value) + "\n"@
}

/// The sample line of an operation count.
pub open spec fn labeled_line(
    name: Seq<char>,
    op: Seq<char>,
    result: Seq<char>,
    value: nat,
) -> Seq<char> {
    name + "{op=\""@ + op + "\",result=\""@ + result + "\"} "@ + decimal(value) + "\n"@
}

/// An operation count: its introduction and a line each for successes and
/// failures.
pub open spec fn labeled_pair_text(
    name: Seq<char>,
    typ: Seq<char>,
    help: Seq<char>,
    op: Seq<char>,
    counts: (u32, u32),
) -> Seq<char> {
    header_text(name, typ, help) + labeled_line(name, op, "success"@, counts.0 as nat)
        + labeled_line(name, op, "failure"@, counts.1 as nat)
}

/// The metrics of the network status.
pub open spec fn status_metrics_text(s: NetworkStatusSnapshot) -> Seq<char> {
    metric_text("freenet_up"@, "gauge"@, "Whether the node is up"@, 1) + metric_text(
        "freenet_uptime_seconds"@,
        "gauge"@,
        "Node uptime in seconds"@,
        s.elapsed_secs as nat,
    ) + metric_text(
        "freenet_peer_connections_total"@,
        "gauge"@,
        "Number of connected peers"@,
        s.open_connections as nat,
    ) + metric_text(
        "freenet_connection_attempts_total"@,
        "counter"@,
        "Total connection attempts"@,
        s.connection_attempts as nat,
    ) + labeled_pair_text(
        "freenet_operations_total"@,
        "counter"@,
        "Operation counts by type and result"@,
        "get"@,
        s.op_stats.gets,
    ) + labeled_pair_text("freenet_operations_total"@, "counter"@, ""@, "put"@, s.op_stats.puts)
        + labeled_pair_text("freenet_operations_total"@, "counter"@, ""@, "update"@, s.op_stats.updates)
        + labeled_pair_text(
        "freenet_operations_total"@,
        "counter"@,
        ""@,
        "subscribe"@,
        s.op_stats.subscribes,
    ) + metric_text(
        "freenet_updates_received_total"@,
        "counter"@,
        "Broadcast updates received via subscriptions"@,
        s.op_stats.updates_received as nat,
    ) + metric_text(
        "freenet_nat_attempts_total"@,
        "counter"@,
        "Total NAT traversal attempts"@,
        s.nat_stats.attempts as nat,
    ) + metric_text(
        "freenet_nat_successes_total"@,
        "counter"@,
        "Total NAT traversal successes"@,
        s.nat_stats.successes as nat,
    ) + metric_text(
        "freenet_contracts_hosted_count"@,
        "gauge"@,
        "Number of hosted contracts"@,
        s.contracts@.len(),
    ) + metric_text(
        "freenet_health_status"@,
        "gauge"@,
        "Node health (0=healthy, 1=degraded, 2=connecting, 3=trouble)"@,
        health_number(s.health),
    )
}

/// The whole metrics text.
pub open spec fn metrics_text(
    snap: Option<&NetworkStatusSnapshot>,
    bytes_sent: nat,
    bytes_received: nat,
    admin_api_requests: nat,
) -> Seq<char> {
    (match snap {
        Some(s) => status_metrics_text(*s),
        None => metric_text("freenet_up"@, "gauge"@, "Whether the node is up"@, 0),
    }) + metric_text("freenet_bytes_sent_total"@, "counter"@, "Cumulative bytes sent"@, bytes_sent)
        + metric_text(
        "freenet_bytes_received_total"@,
        "counter"@,
        "Cumulative bytes received"@,
        bytes_received,
    ) + metric_text(
        "freenet_admin_api_requests_total"@,
        "counter"@,
        "Total admin API requests"@,
        admin_api_requests,
    )
}

/// Metrics export in text exposition format: the content type and the text.
pub fn metrics(
    snap: Option<&NetworkStatusSnapshot>,
    cumulative_bytes_sent: u64,
    cumulative_bytes_received: u64,
    admin_api_requests: u64,
) -> (r: (&'static str, String))
    ensures
        r.0@ == metrics_content_type_text(),
        r.1@ == metrics_text(
            snap,
            cumulative_bytes_sent as nat,
            cumulative_bytes_received as nat,
            admin_api_requests as nat,
        ),
{
    let mut out = match snap {
        Some(s) => status_metrics(s),
        None => metric("freenet_up", "gauge", "Whether the node is up", 0),
    };
    push_metric(
        &mut out,
        "freenet_bytes_sent_total",
        "counter",
        "Cumulative bytes sent",
        cumulative_bytes_sent,
    );
    push_metric(
        &mut out,
        "freenet_bytes_received_total",
        "counter",
        "Cumulative bytes received",
        cumulative_bytes_received,
    );
    push_metric(
        &mut out,
        "freenet_admin_api_requests_total",
        "counter",
        "Total admin API requests",
        admin_api_requests,
    );
    ("text/plain; version=0.0.4; charset=utf-8", out)
}

/// Renders the metrics of the network status.
fn status_metrics(snap: &NetworkStatusSnapshot) -> (out: String)
    ensures
        out@ == status_metrics_text(*snap),
{
    let mut out = metric("freenet_up", "gauge", "Whether the node is up", 1);
    push_metric(
        &mut out,
        "freenet_uptime_seconds",
        "gauge",
        "Node uptime in seconds",
        snap.elapsed_secs,
    );
    push_metric(
        &mut out,
        "freenet_peer_connections_total",
        "gauge",
        "Number of connected peers",
        snap.open_connections as u64,
    );
    push_metric(
        &mut out,
        "freenet_connection_attempts_total",
        "counter",
        "Total connection attempts",
        snap.connection_attempts as u64,
    );
    // Operation counters
    push_labeled_pair(
        &mut out,
        "freenet_operations_total",
        "counter",
        "Operation counts by type and result",
        "get",
        snap.op_stats.gets,
    );
    push_labeled_pair(&mut out, "freenet_operations_total", "counter", "", "put", snap.op_stats.puts);
    push_labeled_pair(&mut out, "freenet_operations_total", "counter", "", "update", snap.op_stats.updates);
    push_labeled_pair(
        &mut out,
        "freenet_operations_total",
        "counter",
        "",
        "subscribe",
        snap.op_stats.subscribes,
    );
    push_metric(
        &mut out,
        "freenet_updates_received_total",
        "counter",
        "Broadcast updates received via subscriptions",
        snap.op_stats.updates_received as u64,
    );
    // NAT stats
    push_metric(
        &mut out,
        "freenet_nat_attempts_total",
        "counter",
        "Total NAT traversal attempts",
        snap.nat_stats.attempts as u64,
    );
    push_metric(
        &mut out,
        "freenet_nat_successes_total",
        "counter",
        "Total NAT traversal successes",
        snap.nat_stats.successes as u64,
    );
    push_metric(
        &mut out,
        "freenet_contracts_hosted_count",
        "gauge",
        "Number of hosted contracts",
        snap.contracts.len() as u64,
    );
    // Health
    let health_val: u64 = match snap.health {
        HealthLevel::Healthy => 0,
        HealthLevel::Degraded => 1,
        HealthLevel::Connecting => 2,
        HealthLevel::Trouble => 3,
    };
    push_metric(
        &mut out,
        "freenet_health_status",
        "gauge",
        "Node health (0=healthy, 1=degraded, 2=connecting, 3=trouble)",
        health_val,
    );
    out
}

/// Renders a metric with one sample.
fn metric(name: &str, typ: &str, help: &str, value: u64) -> (out: String)
    ensures
        out@ == metric_text(name@, typ@, help@, value as nat),
{
    let mut out = String::new();
    push_metric(&mut out, name, typ, help, value);
    assert(out@ =~= metric_text(name@, typ@, help@, value as nat));
    out
}

/// Appends the two comment lines that introduce a metric, unless `help` is empty.
fn push_header(out: &mut String, name: &str, typ: &str, help: &str)
    ensures
        final(out)@ == old(out)@ + header_text(name@, typ@, help@),
{
    if !help.is_empty() {
        out.append("# HELP ");
        out.append(name);
        out.append(" ");
        out.append(help);
        out.append("\n");
        out.append("# TYPE ");
        out.append(name);
        out.append(" ");
        out.append(typ);
        out.append("\n");
    }
    assert(out@ =~= old(out)@ + header_text(name@, typ@, help@));
}

/// Appends a metric with one sample.
pub fn push_metric(out: &mut String, name: &str, typ: &str, help: &str, value: u64)
    ensures
        final(out)@ == old(out)@ + metric_text(name@, typ@, help@, value as nat),
{
    push_header(out, name, typ, help);
    out.append(name);
    out.append(" ");
    push_decimal(out, value);
    out.append("\n");
    assert(out@ =~= old(out)@ + metric_text(name@, typ@, help@, value as nat));
}

/// Appends a sample line of an operation count.
fn push_labeled_line(out: &mut String, name: &str, op: &str, result: &str, value: u32)
    ensures
        final(out)@ == old(out)@ + labeled_line(name@, op@, result@, value as nat),
{
    out.append(name);
    out.append("{op=\"");
    out.append(op);
    out.append("\",result=\"");
    out.append(result);
    out.append("\"} ");
    push_decimal(out, value as u64);
    out.append("\n");
    assert(out@ =~= old(out)@ + labeled_line(name@, op@, result@, value as nat));
}

/// Appends an operation count: successes, then failures.
pub fn push_labeled_pair(
    out: &mut String,
    name: &str,
    typ: &str,
    help: &str,
    op: &str,
    counts: (u32, u32),
)
    ensures
        final(out)@ == old(out)@ + labeled_pair_text(name@, typ@, help@, op@, counts),
{
    push_header(out, name, typ, help);
    push_labeled_line(out, name, op, "success", counts.0);
    push_labeled_line(out, name, op, "failure", counts.1);
    assert(out@ =~= old(out)@ + labeled_pair_text(name@, typ@, help@, op@, counts));
}

// ---------------------------------------------------------------------------
// GET /admin/node/status
// ---------------------------------------------------------------------------

/// Successes and failures of one operation.
#[derive(Clone, Copy, Debug, PartialEq, Eq, Structural)]
pub struct OpCounter {
    pub success: u32,
    pub failure: u32,
}

impl From<(u32, u32)> for OpCounter {
    fn from(counts: (u32, u32)) -> (r: Self) {
        OpCounter { success: counts.0, failure: counts.1 }
    }
}

impl vstd::std_specs::convert::FromSpecImpl<(u32, u32)> for OpCounter {
    open spec fn obeys_from_spec() -> bool {
        true
    }

    open spec fn from_spec(counts: (u32, u32)) -> Self {
        OpCounter { success: counts.0, failure: counts.1 }
    }
}

/// Operation counts of a status answer.
#[derive(Clone, Copy, Debug, PartialEq, Eq, Structural)]
pub struct OpStats {
    pub gets: OpCounter,
    pub puts: OpCounter,
    pub updates: OpCounter,
    pub subscribes: OpCounter,
    pub updates_received: u32,
}

/// The body of a status answer.
#[derive(Debug)]
pub struct NodeStatusResponse {
    pub version: String,
    pub uptime_secs: u64,
    pub health: String,
    pub listening_port: u16,
    pub open_connections: u32,
    pub own_location: Option<Location>,
    pub external_address: Option<String>,
    pub gateway_only: bool,
    pub bytes_uploaded: u64,
    pub bytes_downloaded: u64,
    pub subscribed_contracts: u32,
    pub op_stats: OpStats,
    pub nat_stats: NatStats,
}

/// What a node that is not initialised answers.
#[derive(Debug)]
pub struct ErrorResponse {
    pub error: String,
}

/// A length as a 32-bit count, cut off above 32 bits.
pub open spec fn count_u32(n: nat) -> int {
    n as int % 0x1_0000_0000
}

fn to_count_u32(n: usize) -> (r: u32)
    ensures
        r == count_u32(n as nat),
{
    let low: u64 = n as u64 % 0x1_0000_0000;
    low as u32
}

/// The counts of a snapshot as the status answer gives them.
pub open spec fn op_stats_of(s: OpStatsSnapshot) -> OpStats {
    OpStats {
        gets: OpCounter { success: s.gets.0, failure: s.gets.1 },
        puts: OpCounter { success: s.puts.0, failure: s.puts.1 },
        updates: OpCounter { success: s.updates.0, failure: s.updates.1 },
        subscribes: OpCounter { success: s.subscribes.0, failure: s.subscribes.1 },
        updates_received: s.updates_received,
    }
}

/// The view of an optional text.
pub open spec fn text_of(s: Option<String>) -> Option<Seq<char>> {
    match s {
        Some(t) => Some(t@),
        None => None,
    }
}

fn not_initialized() -> (r: ErrorResponse)
    ensures
        r.error@ == "node not yet initialized"@,
{
    ErrorResponse { error: "node not yet initialized".to_owned() }
}

/// Detailed node status: 200 with the snapshot's values, or 503 with an error
/// while the node is not initialised.
pub fn node_status(snap: Option<&NetworkStatusSnapshot>) -> (r: (
    u16,
    Result<NodeStatusResponse, ErrorResponse>,
))
    ensures
        snap is Some <==> r.0 == STATUS_OK,
        snap is None <==> r.0 == STATUS_SERVICE_UNAVAILABLE,
        snap is Some <==> r.1 is Ok,
        snap is None ==> r.1->Err_0.error@ == "node not yet initialized"@,
        snap is Some ==> {
            let s = snap->0;
            let body = r.1->Ok_0;
            &&& body.version@ == s.version@
            &&& body.uptime_secs == s.elapsed_secs
            &&& body.health@ == health_word(s.health)
            &&& body.listening_port == s.listening_port
            &&& body.open_connections == s.open_connections
            &&& body.own_location == s.own_location
            &&& text_of(body.external_address) == text_of(s.external_address)
            &&& body.gateway_only == s.gateway_only
            &&& body.bytes_uploaded == s.bytes_uploaded
            &&& body.bytes_downloaded == s.bytes_downloaded
            &&& body.subscribed_contracts == count_u32(s.contracts@.len())
            &&& body.op_stats == op_stats_of(s.op_stats)
            &&& body.nat_stats == s.nat_stats
        },
{
    match snap {
        Some(s) => {
            let external_address = match &s.external_address {
                Some(a) => Some(a.clone()),
                None => None,
            };
            let body = NodeStatusResponse {
                version: s.version.clone(),
                uptime_secs: s.elapsed_secs,
                health: health_level_str(s.health),
                listening_port: s.listening_port,
                open_connections: s.open_connections,
                own_location: s.own_location,
                external_address,
                gateway_only: s.gateway_only,
                bytes_uploaded: s.bytes_uploaded,
                bytes_downloaded: s.bytes_downloaded,
                subscribed_contracts: to_count_u32(s.contracts.len()),
                op_stats: OpStats {
                    gets: OpCounter::from(s.op_stats.gets),
                    puts: OpCounter::from(s.op_stats.puts),
                    updates: OpCounter::from(s.op_stats.updates),
                    subscribes: OpCounter::from(s.op_stats.subscribes),
                    updates_received: s.op_stats.updates_received,
                },
                nat_stats: NatStats {
                    attempts: s.nat_stats.attempts,
                    successes: s.nat_stats.successes,
                    recent_attempts: s.nat_stats.recent_attempts,
                    recent_successes: s.nat_stats.recent_successes,
                },
            };
            (STATUS_OK, Ok(body))
        },
        None => (STATUS_SERVICE_UNAVAILABLE, Err(not_initialized())),
    }
}

// ---------------------------------------------------------------------------
// GET /admin/network/peers
// ---------------------------------------------------------------------------

/// A peer as the peers answer gives it.
#[derive(Debug)]
pub struct PeerInfo {
    pub address: String,
    pub is_gateway: bool,
    pub location: Option<Location>,
    pub connected_secs: u64,
    pub bytes_sent: u64,
    pub bytes_received: u64,
}

/// The body of a peers answer.
#[derive(Debug)]
pub struct NetworkPeersResponse {
    pub total: u32,
    pub peers: Vec<PeerInfo>,
}

/// The entry says of the peer what the snapshot says.
pub open spec fn describes(info: PeerInfo, p: PeerSnapshot) -> bool {
    &&& info.address@ == p.address@
    &&& info.is_gateway == p.is_gateway
    &&& info.location == p.location
    &&& info.connected_secs == p.connected_secs
    &&& info.bytes_sent == p.bytes_sent
    &&& info.bytes_received == p.bytes_received
}

/// Connected peers: 200 with one entry per peer in the snapshot's order, or 503
/// with an error while the node is not initialised.
pub fn network_peers(snap: Option<&NetworkStatusSnapshot>) -> (r: (
    u16,
    Result<NetworkPeersResponse, ErrorResponse>,
))
    ensures
        snap is Some <==> r.0 == STATUS_OK,
        snap is None <==> r.0 == STATUS_SERVICE_UNAVAILABLE,
        snap is Some <==> r.1 is Ok,
        snap is None ==> r.1->Err_0.error@ == "node not yet initialized"@,
        snap is Some ==> {
            let body = r.1->Ok_0;
            &&& body.total == count_u32(snap->0.peers@.len())
            &&& body.peers@.len() == snap->0.peers@.len()
            &&& forall|i: int|
                0 <= i < body.peers@.len() ==> describes(
                    #[trigger] body.peers@[i],
                    snap->0.peers@[i],
                )
        },
{
    match snap {
        Some(s) => {
            let mut peers: Vec<PeerInfo> = Vec::new();
            let mut i: usize = 0;
            while i < s.peers.len()
                invariant
                    i <= s.peers@.len(),
                    peers@.len() == i,
                    forall|j: int|
                        0 <= j < peers@.len() ==> describes(#[trigger] peers@[j], s.peers@[j]),
                decreases s.peers@.len() - i,
            {
                let p = &s.peers[i];
                peers.push(
                    PeerInfo {
                        address: p.address.clone(),
                        is_gateway: p.is_gateway,
                        location: p.location,
                        connected_secs: p.connected_secs,
                        bytes_sent: p.bytes_sent,
                        bytes_received: p.bytes_received,
                    },
                );
                i += 1;
            }
            let total: u32 = to_count_u32(peers.len());
            (STATUS_OK, Ok(NetworkPeersResponse { total, peers }))
        },
        None => (STATUS_SERVICE_UNAVAILABLE, Err(not_initialized())),
    }
}

// ---------------------------------------------------------------------------
// GET /admin/config
// ---------------------------------------------------------------------------

/// The body of a configuration answer.
#[derive(Debug)]
pub struct ConfigResponse {
    pub listening_port: Option<u16>,
    pub version: Option<String>,
}

/// Read-only view of the current configuration.
pub fn config_endpoint(snap: Option<&NetworkStatusSnapshot>) -> (r: ConfigResponse)
    ensures
        r.listening_port == (match snap {
            Some(s) => Some(s.listening_port),
            None => None,
        }),
        text_of(r.version) == (match snap {
            Some(s) => Some(s.version@),
            None => None,
        }),
{
    match snap {
        Some(s) => ConfigResponse {
            listening_port: Some(s.listening_port),
            version: Some(s.version.clone()),
        },
        None => ConfigResponse { listening_port: None, version: None },
    }
}

// ---------------------------------------------------------------------------
// What the answers say
// ---------------------------------------------------------------------------

/// A text holds a line, behind another one.
pub open spec fn has_line(text: Seq<char>, line: Seq<char>) -> bool {
    exists|pre: Seq<char>, post: Seq<char>|
        text == #[trigger] (pre + "\n"@ + line + "\n"@ + post)
}

/// The sample line of an operation that ended one way or the other.
pub open spec fn operation_line(op: Seq<char>, result: Seq<char>, value: nat) -> Seq<char> {
    "freenet_operations_total"@ + "{op=\""@ + op + "\",result=\""@ + result + "\"} "@ + decimal(
        value,
    )
}

proof fn lemma_line_stays(text: Seq<char>, line: Seq<char>, more: Seq<char>)
    requires
        has_line(text, line),
    ensures
        has_line(text + more, line),
{
    let (pre, post) = choose|pre: Seq<char>, post: Seq<char>|
        text == #[trigger] (pre + "\n"@ + line + "\n"@ + post);
    assert(text + more =~= pre + "\n"@ + line + "\n"@ + (post + more));
}

proof fn lemma_metric_line(
    before: Seq<char>,
    name: Seq<char>,
    typ: Seq<char>,
    help: Seq<char>,
    value: nat,
)
    requires
        help.len() > 0,
    ensures
        has_line(before + metric_text(name, typ, help, value), name + " "@ + decimal(value)),
{
    let line = name + " "@ + decimal(value);
    let pre = before + ("# HELP "@ + name + " "@ + help + "\n"@ + "# TYPE "@ + name + " "@ + typ);
    assert(before + metric_text(name, typ, help, value) =~= pre + "\n"@ + line + "\n"@
        + Seq::<char>::empty());
}

proof fn lemma_operation_lines(before: Seq<char>, help: Seq<char>, op: Seq<char>, counts: (u32, u32))
    requires
        before.len() > 0,
        before.last() == '\n',
    ensures
        ({
            let text = before + labeled_pair_text(
                "freenet_operations_total"@,
                "counter"@,
                help,
                op,
                counts,
            );
            &&& has_line(text, operation_line(op, "success"@, counts.0 as nat))
            &&& has_line(text, operation_line(op, "failure"@, counts.1 as nat))
            &&& text.last() == '\n'
        }),
{
    let name = "freenet_operations_total"@;
    let text = before + labeled_pair_text(name, "counter"@, help, op, counts);
    let good = operation_line(op, "success"@, counts.0 as nat);
    let bad = operation_line(op, "failure"@, counts.1 as nat);
    let head = before + header_text(name, "counter"@, help);
    reveal_strlit("\n");
    let pre = head.drop_last();
    assert(head.last() == '\n') by {
        if help.len() == 0 {
            assert(head =~= before);
        } else {
            assert(head.last() == "\n"@[0]);
        }
    }
    assert(head =~= pre + "\n"@);
    assert(labeled_line(name, op, "success"@, counts.0 as nat) =~= good + "\n"@);
    assert(labeled_line(name, op, "failure"@, counts.1 as nat) =~= bad + "\n"@);
    assert(text =~= pre + "\n"@ + good + "\n"@ + (bad + "\n"@));
    assert(text =~= (head + good) + "\n"@ + bad + "\n"@ + Seq::<char>::empty());
}

/// The metrics of a node hold for each quantity a line with its name and its value:
/// its uptime, peers, connection attempts, operations by type and result, updates, NAT
/// traversals and contracts, and its health as 0 where it is healthy, 1 where it is
/// degraded, 2 while it is connecting and 3 where it is in trouble.
#[verifier::rlimit(60)]
pub proof fn metrics_name_their_values(s: NetworkStatusSnapshot)
    ensures
        has_line(status_metrics_text(s), "freenet_up"@ + " "@ + decimal(1)),
        has_line(status_metrics_text(s), "freenet_uptime_seconds"@ + " "@ + decimal(s.elapsed_secs as nat)),
        has_line(status_metrics_text(s), "freenet_peer_connections_total"@ + " "@ + decimal(s.open_connections as nat)),
        has_line(status_metrics_text(s), "freenet_connection_attempts_total"@ + " "@ + decimal(s.connection_attempts as nat)),
        has_line(status_metrics_text(s), operation_line("get"@, "success"@, s.op_stats.gets.0 as nat)),
        has_line(status_metrics_text(s), operation_line("get"@, "failure"@, s.op_stats.gets.1 as nat)),
        has_line(status_metrics_text(s), operation_line("put"@, "success"@, s.op_stats.puts.0 as nat)),
        has_line(status_metrics_text(s), operation_line("put"@, "failure"@, s.op_stats.puts.1 as nat)),
        has_line(status_metrics_text(s), operation_line("update"@, "success"@, s.op_stats.updates.0 as nat)),
        has_line(status_metrics_text(s), operation_line("update"@, "failure"@, s.op_stats.updates.1 as nat)),
        has_line(status_metrics_text(s), operation_line("subscribe"@, "success"@, s.op_stats.subscribes.0 as nat)),
        has_line(status_metrics_text(s), operation_line("subscribe"@, "failure"@, s.op_stats.subscribes.1 as nat)),
        has_line(status_metrics_text(s), "freenet_updates_received_total"@ + " "@ + decimal(s.op_stats.updates_received as nat)),
        has_line(status_metrics_text(s), "freenet_nat_attempts_total"@ + " "@ + decimal(s.nat_stats.attempts as nat)),
        has_line(status_metrics_text(s), "freenet_nat_successes_total"@ + " "@ + decimal(s.nat_stats.successes as nat)),
        has_line(status_metrics_text(s), "freenet_contracts_hosted_count"@ + " "@ + decimal(s.contracts@.len())),
        s.health is Healthy ==> has_line(
            status_metrics_text(s),
            "freenet_health_status"@ + " "@ + decimal(0),
        ),
        s.health is Degraded ==> has_line(
            status_metrics_text(s),
            "freenet_health_status"@ + " "@ + decimal(1),
        ),
        s.health is Connecting ==> has_line(
            status_metrics_text(s),
            "freenet_health_status"@ + " "@ + decimal(2),
        ),
        s.health is Trouble ==> has_line(
            status_metrics_text(s),
            "freenet_health_status"@ + " "@ + decimal(3),
        ),
{
    reveal_strlit("\n");
    let none = Seq::<char>::empty();
    let t0 = metric_text("freenet_up"@, "gauge"@, "Whether the node is up"@, 1);
    reveal_strlit("Whether the node is up");
    lemma_metric_line(none, "freenet_up"@, "gauge"@, "Whether the node is up"@, 1);
    assert(none + metric_text("freenet_up"@, "gauge"@, "Whether the node is up"@, 1) =~= t0);
    let t1 = t0 + metric_text("freenet_uptime_seconds"@, "gauge"@, "Node uptime in seconds"@, s.elapsed_secs as nat);
    reveal_strlit("Node uptime in seconds");
    lemma_metric_line(t0, "freenet_uptime_seconds"@, "gauge"@, "Node uptime in seconds"@, s.elapsed_secs as nat);
    lemma_line_stays(t0, "freenet_up"@ + " "@ + decimal(1), metric_text("freenet_uptime_seconds"@, "gauge"@, "Node uptime in seconds"@, s.elapsed_secs as nat));
    let t2 = t1 + metric_text("freenet_peer_connections_total"@, "gauge"@, "Number of connected peers"@, s.open_connections as nat);
    reveal_strlit("Number of connected peers");
    lemma_metric_line(t1, "freenet_peer_connections_total"@, "gauge"@, "Number of connected peers"@, s.open_connections as nat);
    lemma_line_stays(t1, "freenet_up"@ + " "@ + decimal(1), metric_text("freenet_peer_connections_total"@, "gauge"@, "Number of connected peers"@, s.open_connections as nat));
    lemma_line_stays(t1, "freenet_uptime_seconds"@ + " "@ + decimal(s.elapsed_secs as nat), metric_text("freenet_peer_connections_total"@, "gauge"@, "Number of connected peers"@, s.open_connections as nat));
    let t3 = t2 + metric_text("freenet_connection_attempts_total"@, "counter"@, "Total connection attempts"@, s.connection_attempts as nat);
    reveal_strlit("Total connection attempts");
    lemma_metric_line(t2, "freenet_connection_attempts_total"@, "counter"@, "Total connection attempts"@, s.connection_attempts as nat);
    lemma_line_stays(t2, "freenet_up"@ + " "@ + decimal(1), metric_text("freenet_connection_attempts_total"@, "counter"@, "Total connection attempts"@, s.connection_attempts as nat));
    lemma_line_stays(t2, "freenet_uptime_seconds"@ + " "@ + decimal(s.elapsed_secs as nat), metric_text("freenet_connection_attempts_total"@, "counter"@, "Total connection attempts"@, s.connection_attempts as nat));
    lemma_line_stays(t2, "freenet_peer_connections_total"@ + " "@ + decimal(s.open_connections as nat), metric_text("freenet_connection_attempts_total"@, "counter"@, "Total connection attempts"@, s.connection_attempts as nat));
    let t4 = t3 + labeled_pair_text("freenet_operations_total"@, "counter"@, "Operation counts by type and result"@, "get"@, s.op_stats.gets);
    lemma_operation_lines(t3, "Operation counts by type and result"@, "get"@, s.op_stats.gets);
    lemma_line_stays(t3, "freenet_up"@ + " "@ + decimal(1), labeled_pair_text("freenet_operations_total"@, "counter"@, "Operation counts by type and result"@, "get"@, s.op_stats.gets));
    lemma_line_stays(t3, "freenet_uptime_seconds"@ + " "@ + decimal(s.elapsed_secs as nat), labeled_pair_text("freenet_operations_total"@, "counter"@, "Operation counts by type and result"@, "get"@, s.op_stats.gets));
    lemma_line_stays(t3, "freenet_peer_connections_total"@ + " "@ + decimal(s.open_connections as nat), labeled_pair_text("freenet_operations_total"@, "counter"@, "Operation counts by type and result"@, "get"@, s.op_stats.gets));
    lemma_line_stays(t3, "freenet_connection_attempts_total"@ + " "@ + decimal(s.connection_attempts as nat), labeled_pair_text("freenet_operations_total"@, "counter"@, "Operation counts by type and result"@, "get"@, s.op_stats.gets));
    let t5 = t4 + labeled_pair_text("freenet_operations_total"@, "counter"@, ""@, "put"@, s.op_stats.puts);
    lemma_operation_lines(t4, ""@, "put"@, s.op_stats.puts);
    lemma_line_stays(t4, "freenet_up"@ + " "@ + decimal(1), labeled_pair_text("freenet_operations_total"@, "counter"@, ""@, "put"@, s.op_stats.puts));
    lemma_line_stays(t4, "freenet_uptime_seconds"@ + " "@ + decimal(s.elapsed_secs as nat), labeled_pair_text("freenet_operations_total"@, "counter"@, ""@, "put"@, s.op_stats.puts));
    lemma_line_stays(t4, "freenet_peer_connections_total"@ + " "@ + decimal(s.open_connections as nat), labeled_pair_text("freenet_operations_total"@, "counter"@, ""@, "put"@, s.op_stats.puts));
    lemma_line_stays(t4, "freenet_connection_attempts_total"@ + " "@ + decimal(s.connection_attempts as nat), labeled_pair_text("freenet_operations_total"@, "counter"@, ""@, "put"@, s.op_stats.puts));
    lemma_line_stays(t4, operation_line("get"@, "success"@, s.op_stats.gets.0 as nat), labeled_pair_text("freenet_operations_total"@, "counter"@, ""@, "put"@, s.op_stats.puts));
    lemma_line_stays(t4, operation_line("get"@, "failure"@, s.op_stats.gets.1 as nat), labeled_pair_text("freenet_operations_total"@, "counter"@, ""@, "put"@, s.op_stats.puts));
    let t6 = t5 + labeled_pair_text("freenet_operations_total"@, "counter"@, ""@, "update"@, s.op_stats.updates);
    lemma_operation_lines(t5, ""@, "update"@, s.op_stats.updates);
    lemma_line_stays(t5, "freenet_up"@ + " "@ + decimal(1), labeled_pair_text("freenet_operations_total"@, "counter"@, ""@, "update"@, s.op_stats.updates));
    lemma_line_stays(t5, "freenet_uptime_seconds"@ + " "@ + decimal(s.elapsed_secs as nat), labeled_pair_text("freenet_operations_total"@, "counter"@, ""@, "update"@, s.op_stats.updates));
    lemma_line_stays(t5, "freenet_peer_connections_total"@ + " "@ + decimal(s.open_connections as nat), labeled_pair_text("freenet_operations_total"@, "counter"@, ""@, "update"@, s.op_stats.updates));
    lemma_line_stays(t5, "freenet_connection_attempts_total"@ + " "@ + decimal(s.connection_attempts as nat), labeled_pair_text("freenet_operations_total"@, "counter"@, ""@, "update"@, s.op_stats.updates));
    lemma_line_stays(t5, operation_line("get"@, "success"@, s.op_stats.gets.0 as nat), labeled_pair_text("freenet_operations_total"@, "counter"@, ""@, "update"@, s.op_stats.updates));
    lemma_line_stays(t5, operation_line("get"@, "failure"@, s.op_stats.gets.1 as nat), labeled_pair_text("freenet_operations_total"@, "counter"@, ""@, "update"@, s.op_stats.updates));
    lemma_line_stays(t5, operation_line("put"@, "success"@, s.op_stats.puts.0 as nat), labeled_pair_text("freenet_operations_total"@, "counter"@, ""@, "update"@, s.op_stats.updates));
    lemma_line_stays(t5, operation_line("put"@, "failure"@, s.op_stats.puts.1 as nat), labeled_pair_text("freenet_operations_total"@, "counter"@, ""@, "update"@, s.op_stats.updates));
    let t7 = t6 + labeled_pair_text("freenet_operations_total"@, "counter"@, ""@, "subscribe"@, s.op_stats.subscribes);
    lemma_operation_lines(t6, ""@, "subscribe"@, s.op_stats.subscribes);
    lemma_line_stays(t6, "freenet_up"@ + " "@ + decimal(1), labeled_pair_text("freenet_operations_total"@, "counter"@, ""@, "subscribe"@, s.op_stats.subscribes));
    lemma_line_stays(t6, "freenet_uptime_seconds"@ + " "@ + decimal(s.elapsed_secs as nat), labeled_pair_text("freenet_operations_total"@, "counter"@, ""@, "subscribe"@, s.op_stats.subscribes));
    lemma_line_stays(t6, "freenet_peer_connections_total"@ + " "@ + decimal(s.open_connections as nat), labeled_pair_text("freenet_operations_total"@, "counter"@, ""@, "subscribe"@, s.op_stats.subscribes));
    lemma_line_stays(t6, "freenet_connection_attempts_total"@ + " "@ + decimal(s.connection_attempts as nat), labeled_pair_text("freenet_operations_total"@, "counter"@, ""@, "subscribe"@, s.op_stats.subscribes));
    lemma_line_stays(t6, operation_line("get"@, "success"@, s.op_stats.gets.0 as nat), labeled_pair_text("freenet_operations_total"@, "counter"@, ""@, "subscribe"@, s.op_stats.subscribes));
    lemma_line_stays(t6, operation_line("get"@, "failure"@, s.op_stats.gets.1 as nat), labeled_pair_text("freenet_operations_total"@, "counter"@, ""@, "subscribe"@, s.op_stats.subscribes));
    lemma_line_stays(t6, operation_line("put"@, "success"@, s.op_stats.puts.0 as nat), labeled_pair_text("freenet_operations_total"@, "counter"@, ""@, "subscribe"@, s.op_stats.subscribes));
    lemma_line_stays(t6, operation_line("put"@, "failure"@, s.op_stats.puts.1 as nat), labeled_pair_text("freenet_operations_total"@, "counter"@, ""@, "subscribe"@, s.op_stats.subscribes));
    lemma_line_stays(t6, operation_line("update"@, "success"@, s.op_stats.updates.0 as nat), labeled_pair_text("freenet_operations_total"@, "counter"@, ""@, "subscribe"@, s.op_stats.subscribes));
    lemma_line_stays(t6, operation_line("update"@, "failure"@, s.op_stats.updates.1 as nat), labeled_pair_text("freenet_operations_total"@, "counter"@, ""@, "subscribe"@, s.op_stats.subscribes));
    let t8 = t7 + metric_text("freenet_updates_received_total"@, "counter"@, "Broadcast updates received via subscriptions"@, s.op_stats.updates_received as nat);
    reveal_strlit("Broadcast updates received via subscriptions");
    lemma_metric_line(t7, "freenet_updates_received_total"@, "counter"@, "Broadcast updates received via subscriptions"@, s.op_stats.updates_received as nat);
    lemma_line_stays(t7, "freenet_up"@ + " "@ + decimal(1), metric_text("freenet_updates_received_total"@, "counter"@, "Broadcast updates received via subscriptions"@, s.op_stats.updates_received as nat));
    lemma_line_stays(t7, "freenet_uptime_seconds"@ + " "@ + decimal(s.elapsed_secs as nat), metric_text("freenet_updates_received_total"@, "counter"@, "Broadcast updates received via subscriptions"@, s.op_stats.updates_received as nat));
    lemma_line_stays(t7, "freenet_peer_connections_total"@ + " "@ + decimal(s.open_connections as nat), metric_text("freenet_updates_received_total"@, "counter"@, "Broadcast updates received via subscriptions"@, s.op_stats.updates_received as nat));
    lemma_line_stays(t7, "freenet_connection_attempts_total"@ + " "@ + decimal(s.connection_attempts as nat), metric_text("freenet_updates_received_total"@, "counter"@, "Broadcast updates received via subscriptions"@, s.op_stats.updates_received as nat));
    lemma_line_stays(t7, operation_line("get"@, "success"@, s.op_stats.gets.0 as nat), metric_text("freenet_updates_received_total"@, "counter"@, "Broadcast updates received via subscriptions"@, s.op_stats.updates_received as nat));
    lemma_line_stays(t7, operation_line("get"@, "failure"@, s.op_stats.gets.1 as nat), metric_text("freenet_updates_received_total"@, "counter"@, "Broadcast updates received via subscriptions"@, s.op_stats.updates_received as nat));
    lemma_line_stays(t7, operation_line("put"@, "success"@, s.op_stats.puts.0 as nat), metric_text("freenet_updates_received_total"@, "counter"@, "Broadcast updates received via subscriptions"@, s.op_stats.updates_received as nat));
    lemma_line_stays(t7, operation_line("put"@, "failure"@, s.op_stats.puts.1 as nat), metric_text("freenet_updates_received_total"@, "counter"@, "Broadcast updates received via subscriptions"@, s.op_stats.updates_received as nat));
    lemma_line_stays(t7, operation_line("update"@, "success"@, s.op_stats.updates.0 as nat), metric_text("freenet_updates_received_total"@, "counter"@, "Broadcast updates received via subscriptions"@, s.op_stats.updates_received as nat));
    lemma_line_stays(t7, operation_line("update"@, "failure"@, s.op_stats.updates.1 as nat), metric_text("freenet_updates_received_total"@, "counter"@, "Broadcast updates received via subscriptions"@, s.op_stats.updates_received as nat));
    lemma_line_stays(t7, operation_line("subscribe"@, "success"@, s.op_stats.subscribes.0 as nat), metric_text("freenet_updates_received_total"@, "counter"@, "Broadcast updates received via subscriptions"@, s.op_stats.updates_received as nat));
    lemma_line_stays(t7, operation_line("subscribe"@, "failure"@, s.op_stats.subscribes.1 as nat), metric_text("freenet_updates_received_total"@, "counter"@, "Broadcast updates received via subscriptions"@, s.op_stats.updates_received as nat));
    let t9 = t8 + metric_text("freenet_nat_attempts_total"@, "counter"@, "Total NAT traversal attempts"@, s.nat_stats.attempts as nat);
    reveal_strlit("Total NAT traversal attempts");
    lemma_metric_line(t8, "freenet_nat_attempts_total"@, "counter"@, "Total NAT traversal attempts"@, s.nat_stats.attempts as nat);
    lemma_line_stays(t8, "freenet_up"@ + " "@ + decimal(1), metric_text("freenet_nat_attempts_total"@, "counter"@, "Total NAT traversal attempts"@, s.nat_stats.attempts as nat));
    lemma_line_stays(t8, "freenet_uptime_seconds"@ + " "@ + decimal(s.elapsed_secs as nat), metric_text("freenet_nat_attempts_total"@, "counter"@, "Total NAT traversal attempts"@, s.nat_stats.attempts as nat));
    lemma_line_stays(t8, "freenet_peer_connections_total"@ + " "@ + decimal(s.open_connections as nat), metric_text("freenet_nat_attempts_total"@, "counter"@, "Total NAT traversal attempts"@, s.nat_stats.attempts as nat));
    lemma_line_stays(t8, "freenet_connection_attempts_total"@ + " "@ + decimal(s.connection_attempts as nat), metric_text("freenet_nat_attempts_total"@, "counter"@, "Total NAT traversal attempts"@, s.nat_stats.attempts as nat));
    lemma_line_stays(t8, operation_line("get"@, "success"@, s.op_stats.gets.0 as nat), metric_text("freenet_nat_attempts_total"@, "counter"@, "Total NAT traversal attempts"@, s.nat_stats.attempts as nat));
    lemma_line_stays(t8, operation_line("get"@, "failure"@, s.op_stats.gets.1 as nat), metric_text("freenet_nat_attempts_total"@, "counter"@, "Total NAT traversal attempts"@, s.nat_stats.attempts as nat));
    lemma_line_stays(t8, operation_line("put"@, "success"@, s.op_stats.puts.0 as nat), metric_text("freenet_nat_attempts_total"@, "counter"@, "Total NAT traversal attempts"@, s.nat_stats.attempts as nat));
    lemma_line_stays(t8, operation_line("put"@, "failure"@, s.op_stats.puts.1 as nat), metric_text("freenet_nat_attempts_total"@, "counter"@, "Total NAT traversal attempts"@, s.nat_stats.attempts as nat));
    lemma_line_stays(t8, operation_line("update"@, "success"@, s.op_stats.updates.0 as nat), metric_text("freenet_nat_attempts_total"@, "counter"@, "Total NAT traversal attempts"@, s.nat_stats.attempts as nat));
    lemma_line_stays(t8, operation_line("update"@, "failure"@, s.op_stats.updates.1 as nat), metric_text("freenet_nat_attempts_total"@, "counter"@, "Total NAT traversal attempts"@, s.nat_stats.attempts as nat));
    lemma_line_stays(t8, operation_line("subscribe"@, "success"@, s.op_stats.subscribes.0 as nat), metric_text("freenet_nat_attempts_total"@, "counter"@, "Total NAT traversal attempts"@, s.nat_stats.attempts as nat));
    lemma_line_stays(t8, operation_line("subscribe"@, "failure"@, s.op_stats.subscribes.1 as nat), metric_text("freenet_nat_attempts_total"@, "counter"@, "Total NAT traversal attempts"@, s.nat_stats.attempts as nat));
    lemma_line_stays(t8, "freenet_updates_received_total"@ + " "@ + decimal(s.op_stats.updates_received as nat), metric_text("freenet_nat_attempts_total"@, "counter"@, "Total NAT traversal attempts"@, s.nat_stats.attempts as nat));
    let t10 = t9 + metric_text("freenet_nat_successes_total"@, "counter"@, "Total NAT traversal successes"@, s.nat_stats.successes as nat);
    reveal_strlit("Total NAT traversal successes");
    lemma_metric_line(t9, "freenet_nat_successes_total"@, "counter"@, "Total NAT traversal successes"@, s.nat_stats.successes as nat);
    lemma_line_stays(t9, "freenet_up"@ + " "@ + decimal(1), metric_text("freenet_nat_successes_total"@, "counter"@, "Total NAT traversal successes"@, s.nat_stats.successes as nat));
    lemma_line_stays(t9, "freenet_uptime_seconds"@ + " "@ + decimal(s.elapsed_secs as nat), metric_text("freenet_nat_successes_total"@, "counter"@, "Total NAT traversal successes"@, s.nat_stats.successes as nat));
    lemma_line_stays(t9, "freenet_peer_connections_total"@ + " "@ + decimal(s.open_connections as nat), metric_text("freenet_nat_successes_total"@, "counter"@, "Total NAT traversal successes"@, s.nat_stats.successes as nat));
    lemma_line_stays(t9, "freenet_connection_attempts_total"@ + " "@ + decimal(s.connection_attempts as nat), metric_text("freenet_nat_successes_total"@, "counter"@, "Total NAT traversal successes"@, s.nat_stats.successes as nat));
    lemma_line_stays(t9, operation_line("get"@, "success"@, s.op_stats.gets.0 as nat), metric_text("freenet_nat_successes_total"@, "counter"@, "Total NAT traversal successes"@, s.nat_stats.successes as nat));
    lemma_line_stays(t9, operation_line("get"@, "failure"@, s.op_stats.gets.1 as nat), metric_text("freenet_nat_successes_total"@, "counter"@, "Total NAT traversal successes"@, s.nat_stats.successes as nat));
    lemma_line_stays(t9, operation_line("put"@, "success"@, s.op_stats.puts.0 as nat), metric_text("freenet_nat_successes_total"@, "counter"@, "Total NAT traversal successes"@, s.nat_stats.successes as nat));
    lemma_line_stays(t9, operation_line("put"@, "failure"@, s.op_stats.puts.1 as nat), metric_text("freenet_nat_successes_total"@, "counter"@, "Total NAT traversal successes"@, s.nat_stats.successes as nat));
    lemma_line_stays(t9, operation_line("update"@, "success"@, s.op_stats.updates.0 as nat), metric_text("freenet_nat_successes_total"@, "counter"@, "Total NAT traversal successes"@, s.nat_stats.successes as nat));
    lemma_line_stays(t9, operation_line("update"@, "failure"@, s.op_stats.updates.1 as nat), metric_text("freenet_nat_successes_total"@, "counter"@, "Total NAT traversal successes"@, s.nat_stats.successes as nat));
    lemma_line_stays(t9, operation_line("subscribe"@, "success"@, s.op_stats.subscribes.0 as nat), metric_text("freenet_nat_successes_total"@, "counter"@, "Total NAT traversal successes"@, s.nat_stats.successes as nat));
    lemma_line_stays(t9, operation_line("subscribe"@, "failure"@, s.op_stats.subscribes.1 as nat), metric_text("freenet_nat_successes_total"@, "counter"@, "Total NAT traversal successes"@, s.nat_stats.successes as nat));
    lemma_line_stays(t9, "freenet_updates_received_total"@ + " "@ + decimal(s.op_stats.updates_received as nat), metric_text("freenet_nat_successes_total"@, "counter"@, "Total NAT traversal successes"@, s.nat_stats.successes as nat));
    lemma_line_stays(t9, "freenet_nat_attempts_total"@ + " "@ + decimal(s.nat_stats.attempts as nat), metric_text("freenet_nat_successes_total"@, "counter"@, "Total NAT traversal successes"@, s.nat_stats.successes as nat));
    let t11 = t10 + metric_text("freenet_contracts_hosted_count"@, "gauge"@, "Number of hosted contracts"@, s.contracts@.len());
    reveal_strlit("Number of hosted contracts");
    lemma_metric_line(t10, "freenet_contracts_hosted_count"@, "gauge"@, "Number of hosted contracts"@, s.contracts@.len());
    lemma_line_stays(t10, "freenet_up"@ + " "@ + decimal(1), metric_text("freenet_contracts_hosted_count"@, "gauge"@, "Number of hosted contracts"@, s.contracts@.len()));
    lemma_line_stays(t10, "freenet_uptime_seconds"@ + " "@ + decimal(s.elapsed_secs as nat), metric_text("freenet_contracts_hosted_count"@, "gauge"@, "Number of hosted contracts"@, s.contracts@.len()));
    lemma_line_stays(t10, "freenet_peer_connections_total"@ + " "@ + decimal(s.open_connections as nat), metric_text("freenet_contracts_hosted_count"@, "gauge"@, "Number of hosted contracts"@, s.contracts@.len()));
    lemma_line_stays(t10, "freenet_connection_attempts_total"@ + " "@ + decimal(s.connection_attempts as nat), metric_text("freenet_contracts_hosted_count"@, "gauge"@, "Number of hosted contracts"@, s.contracts@.len()));
    lemma_line_stays(t10, operation_line("get"@, "success"@, s.op_stats.gets.0 as nat), metric_text("freenet_contracts_hosted_count"@, "gauge"@, "Number of hosted contracts"@, s.contracts@.len()));
    lemma_line_stays(t10, operation_line("get"@, "failure"@, s.op_stats.gets.1 as nat), metric_text("freenet_contracts_hosted_count"@, "gauge"@, "Number of hosted contracts"@, s.contracts@.len()));
    lemma_line_stays(t10, operation_line("put"@, "success"@, s.op_stats.puts.0 as nat), metric_text("freenet_contracts_hosted_count"@, "gauge"@, "Number of hosted contracts"@, s.contracts@.len()));
    lemma_line_stays(t10, operation_line("put"@, "failure"@, s.op_stats.puts.1 as nat), metric_text("freenet_contracts_hosted_count"@, "gauge"@, "Number of hosted contracts"@, s.contracts@.len()));
    lemma_line_stays(t10, operation_line("update"@, "success"@, s.op_stats.updates.0 as nat), metric_text("freenet_contracts_hosted_count"@, "gauge"@, "Number of hosted contracts"@, s.contracts@.len()));
    lemma_line_stays(t10, operation_line("update"@, "failure"@, s.op_stats.updates.1 as nat), metric_text("freenet_contracts_hosted_count"@, "gauge"@, "Number of hosted contracts"@, s.contracts@.len()));
    lemma_line_stays(t10, operation_line("subscribe"@, "success"@, s.op_stats.subscribes.0 as nat), metric_text("freenet_contracts_hosted_count"@, "gauge"@, "Number of hosted contracts"@, s.contracts@.len()));
    lemma_line_stays(t10, operation_line("subscribe"@, "failure"@, s.op_stats.subscribes.1 as nat), metric_text("freenet_contracts_hosted_count"@, "gauge"@, "Number of hosted contracts"@, s.contracts@.len()));
    lemma_line_stays(t10, "freenet_updates_received_total"@ + " "@ + decimal(s.op_stats.updates_received as nat), metric_text("freenet_contracts_hosted_count"@, "gauge"@, "Number of hosted contracts"@, s.contracts@.len()));
    lemma_line_stays(t10, "freenet_nat_attempts_total"@ + " "@ + decimal(s.nat_stats.attempts as nat), metric_text("freenet_contracts_hosted_count"@, "gauge"@, "Number of hosted contracts"@, s.contracts@.len()));
    lemma_line_stays(t10, "freenet_nat_successes_total"@ + " "@ + decimal(s.nat_stats.successes as nat), metric_text("freenet_contracts_hosted_count"@, "gauge"@, "Number of hosted contracts"@, s.contracts@.len()));
    let t12 = t11 + metric_text("freenet_health_status"@, "gauge"@, "Node health (0=healthy, 1=degraded, 2=connecting, 3=trouble)"@, health_number(s.health));
    reveal_strlit("Node health (0=healthy, 1=degraded, 2=connecting, 3=trouble)");
    lemma_metric_line(t11, "freenet_health_status"@, "gauge"@, "Node health (0=healthy, 1=degraded, 2=connecting, 3=trouble)"@, health_number(s.health));
    lemma_line_stays(t11, "freenet_up"@ + " "@ + decimal(1), metric_text("freenet_health_status"@, "gauge"@, "Node health (0=healthy, 1=degraded, 2=connecting, 3=trouble)"@, health_number(s.health)));
    lemma_line_stays(t11, "freenet_uptime_seconds"@ + " "@ + decimal(s.elapsed_secs as nat), metric_text("freenet_health_status"@, "gauge"@, "Node health (0=healthy, 1=degraded, 2=connecting, 3=trouble)"@, health_number(s.health)));
    lemma_line_stays(t11, "freenet_peer_connections_total"@ + " "@ + decimal(s.open_connections as nat), metric_text("freenet_health_status"@, "gauge"@, "Node health (0=healthy, 1=degraded, 2=connecting, 3=trouble)"@, health_number(s.health)));
    lemma_line_stays(t11, "freenet_connection_attempts_total"@ + " "@ + decimal(s.connection_attempts as nat), metric_text("freenet_health_status"@, "gauge"@, "Node health (0=healthy, 1=degraded, 2=connecting, 3=trouble)"@, health_number(s.health)));
    lemma_line_stays(t11, operation_line("get"@, "success"@, s.op_stats.gets.0 as nat), metric_text("freenet_health_status"@, "gauge"@, "Node health (0=healthy, 1=degraded, 2=connecting, 3=trouble)"@, health_number(s.health)));
    lemma_line_stays(t11, operation_line("get"@, "failure"@, s.op_stats.gets.1 as nat), metric_text("freenet_health_status"@, "gauge"@, "Node health (0=healthy, 1=degraded, 2=connecting, 3=trouble)"@, health_number(s.health)));
    lemma_line_stays(t11, operation_line("put"@, "success"@, s.op_stats.puts.0 as nat), metric_text("freenet_health_status"@, "gauge"@, "Node health (0=healthy, 1=degraded, 2=connecting, 3=trouble)"@, health_number(s.health)));
    lemma_line_stays(t11, operation_line("put"@, "failure"@, s.op_stats.puts.1 as nat), metric_text("freenet_health_status"@, "gauge"@, "Node health (0=healthy, 1=degraded, 2=connecting, 3=trouble)"@, health_number(s.health)));
    lemma_line_stays(t11, operation_line("update"@, "success"@, s.op_stats.updates.0 as nat), metric_text("freenet_health_status"@, "gauge"@, "Node health (0=healthy, 1=degraded, 2=connecting, 3=trouble)"@, health_number(s.health)));
    lemma_line_stays(t11, operation_line("update"@, "failure"@, s.op_stats.updates.1 as nat), metric_text("freenet_health_status"@, "gauge"@, "Node health (0=healthy, 1=degraded, 2=connecting, 3=trouble)"@, health_number(s.health)));
    lemma_line_stays(t11, operation_line("subscribe"@, "success"@, s.op_stats.subscribes.0 as nat), metric_text("freenet_health_status"@, "gauge"@, "Node health (0=healthy, 1=degraded, 2=connecting, 3=trouble)"@, health_number(s.health)));
    lemma_line_stays(t11, operation_line("subscribe"@, "failure"@, s.op_stats.subscribes.1 as nat), metric_text("freenet_health_status"@, "gauge"@, "Node health (0=healthy, 1=degraded, 2=connecting, 3=trouble)"@, health_number(s.health)));
    lemma_line_stays(t11, "freenet_updates_received_total"@ + " "@ + decimal(s.op_stats.updates_received as nat), metric_text("freenet_health_status"@, "gauge"@, "Node health (0=healthy, 1=degraded, 2=connecting, 3=trouble)"@, health_number(s.health)));
    lemma_line_stays(t11, "freenet_nat_attempts_total"@ + " "@ + decimal(s.nat_stats.attempts as nat), metric_text("freenet_health_status"@, "gauge"@, "Node health (0=healthy, 1=degraded, 2=connecting, 3=trouble)"@, health_number(s.health)));
    lemma_line_stays(t11, "freenet_nat_successes_total"@ + " "@ + decimal(s.nat_stats.successes as nat), metric_text("freenet_health_status"@, "gauge"@, "Node health (0=healthy, 1=degraded, 2=connecting, 3=trouble)"@, health_number(s.health)));
    lemma_line_stays(t11, "freenet_contracts_hosted_count"@ + " "@ + decimal(s.contracts@.len()), metric_text("freenet_health_status"@, "gauge"@, "Node health (0=healthy, 1=degraded, 2=connecting, 3=trouble)"@, health_number(s.health)));
    assert(status_metrics_text(s) == t12);
}

/// What is said of the node stays in the whole text, which adds the bytes and requests
/// under their names.
pub proof fn metrics_add_traffic(
    s: NetworkStatusSnapshot,
    line: Seq<char>,
    sent: nat,
    received: nat,
    requests: nat,
)
    ensures
        has_line(status_metrics_text(s), line) ==> has_line(
            metrics_text(Some(&s), sent, received, requests),
            line,
        ),
        has_line(
            metrics_text(None, sent, received, requests),
            "freenet_up"@ + " "@ + decimal(0),
        ),
        forall|snap: Option<&NetworkStatusSnapshot>|
            {
                let text = #[trigger] metrics_text(snap, sent, received, requests);
                &&& has_line(text, "freenet_bytes_sent_total"@ + " "@ + decimal(sent))
                &&& has_line(text, "freenet_bytes_received_total"@ + " "@ + decimal(received))
                &&& has_line(text, "freenet_admin_api_requests_total"@ + " "@ + decimal(requests))
            },
{
    reveal_strlit("Cumulative bytes sent");
    reveal_strlit("Cumulative bytes received");
    reveal_strlit("Total admin API requests");
    reveal_strlit("Whether the node is up");
    let m1 = metric_text("freenet_bytes_sent_total"@, "counter"@, "Cumulative bytes sent"@, sent);
    let m2 = metric_text(
        "freenet_bytes_received_total"@,
        "counter"@,
        "Cumulative bytes received"@,
        received,
    );
    let m3 = metric_text(
        "freenet_admin_api_requests_total"@,
        "counter"@,
        "Total admin API requests"@,
        requests,
    );
    if has_line(status_metrics_text(s), line) {
        let t = status_metrics_text(s);
        lemma_line_stays(t, line, m1);
        lemma_line_stays(t + m1, line, m2);
        lemma_line_stays(t + m1 + m2, line, m3);
    }
    let down = metric_text("freenet_up"@, "gauge"@, "Whether the node is up"@, 0);
    let up_line = "freenet_up"@ + " "@ + decimal(0);
    lemma_metric_line(Seq::empty(), "freenet_up"@, "gauge"@, "Whether the node is up"@, 0);
    assert(Seq::<char>::empty() + down =~= down);
    lemma_line_stays(down, up_line, m1);
    lemma_line_stays(down + m1, up_line, m2);
    lemma_line_stays(down + m1 + m2, up_line, m3);
    assert forall|snap: Option<&NetworkStatusSnapshot>|
        {
            let text = #[trigger] metrics_text(snap, sent, received, requests);
            &&& has_line(text, "freenet_bytes_sent_total"@ + " "@ + decimal(sent))
            &&& has_line(text, "freenet_bytes_received_total"@ + " "@ + decimal(received))
            &&& has_line(text, "freenet_admin_api_requests_total"@ + " "@ + decimal(requests))
        } by {
        let t = match snap {
            Some(x) => status_metrics_text(*x),
            None => down,
        };
        lemma_metric_line(
            t,
            "freenet_bytes_sent_total"@,
            "counter"@,
            "Cumulative bytes sent"@,
            sent,
        );
        lemma_metric_line(
            t + m1,
            "freenet_bytes_received_total"@,
            "counter"@,
            "Cumulative bytes received"@,
            received,
        );
        lemma_metric_line(
            t + m1 + m2,
            "freenet_admin_api_requests_total"@,
            "counter"@,
            "Total admin API requests"@,
            requests,
        );
        let sent_line = "freenet_bytes_sent_total"@ + " "@ + decimal(sent);
        let received_line = "freenet_bytes_received_total"@ + " "@ + decimal(received);
        lemma_line_stays(t + m1, sent_line, m2);
        lemma_line_stays(t + m1 + m2, sent_line, m3);
        lemma_line_stays(t + m1 + m2, received_line, m3);
    }
}

/// A node without a connection is not ready, nor is one that is still connecting or in
/// trouble; with a connection a healthy node is ready, and so is a degraded one.
pub proof fn readiness_follows_health(s: NetworkStatusSnapshot)
    ensures
        s.open_connections == 0 ==> !is_ready(Some(&s)),
        s.health is Connecting || s.health is Trouble ==> !is_ready(Some(&s)),
        s.open_connections > 0 && (s.health is Healthy || s.health is Degraded) ==> is_ready(
            Some(&s),
        ),
        !is_ready(None),
        STATUS_OK == 200,
        STATUS_SERVICE_UNAVAILABLE == 503,
{
}

/// Each health level has the word of its own, and a check says whether it passed.
pub proof fn health_words_are_their_own(level: HealthLevel, passed: bool)
    ensures
        health_word(level) == "healthy"@ <==> level is Healthy,
        health_word(level) == "degraded"@ <==> level is Degraded,
        health_word(level) == "connecting"@ <==> level is Connecting,
        health_word(level) == "trouble"@ <==> level is Trouble,
        check_word(passed) == "healthy"@ <==> passed,
        check_word(passed) == "unhealthy"@ <==> !passed,
{
    reveal_strlit("healthy");
    reveal_strlit("unhealthy");
    reveal_strlit("degraded");
    reveal_strlit("connecting");
    reveal_strlit("trouble");
    assert("healthy"@[0] == 'h' && "unhealthy"@[0] == 'u' && "degraded"@[0] == 'd');
    assert("connecting"@[0] == 'c' && "trouble"@[0] == 't');
}

/// Each count of the answer is the count of the same operation, successes as successes
/// and failures as failures; lengths that fit are told as they are.
pub proof fn counts_are_told_as_they_are(s: OpStatsSnapshot, n: nat)
    ensures
        op_stats_of(s).gets.success == s.gets.0 && op_stats_of(s).gets.failure == s.gets.1,
        op_stats_of(s).puts.success == s.puts.0 && op_stats_of(s).puts.failure == s.puts.1,
        op_stats_of(s).updates.success == s.updates.0,
        op_stats_of(s).updates.failure == s.updates.1,
        op_stats_of(s).subscribes.success == s.subscribes.0,
        op_stats_of(s).subscribes.failure == s.subscribes.1,
        op_stats_of(s).updates_received == s.updates_received,
        n <= u32::MAX ==> count_u32(n) == n,
{
}

/// What an entry says of a peer is true of the peer: where it is, how long it has been
/// connected, and how many bytes went to it and came from it.
pub proof fn entries_are_true(info: PeerInfo, p: PeerSnapshot)
    requires
        describes(info, p),
    ensures
        info.address@ == p.address@,
        info.location == p.location,
        info.is_gateway <==> p.is_gateway,
        info.connected_secs == p.connected_secs,
        info.bytes_sent == p.bytes_sent,
        info.bytes_received == p.bytes_received,
{
}

/// The status of a liveness answer.
pub open spec fn health_code(snap: Option<&NetworkStatusSnapshot>) -> u16 {
    match snap {
        Some(s) => match s.health {
            HealthLevel::Trouble => STATUS_SERVICE_UNAVAILABLE,
            _ => STATUS_OK,
        },
        None => STATUS_SERVICE_UNAVAILABLE,
    }
}

/// The status of a readiness answer.
pub open spec fn ready_code(snap: Option<&NetworkStatusSnapshot>) -> u16 {
    if is_ready(snap) {
        STATUS_OK
    } else {
        STATUS_SERVICE_UNAVAILABLE
    }
}

/// A node that is up and not in trouble is alive, though it still connects; it is
/// ready only where it is alive and has a connection. A node that is alive but not
/// ready has no connection or still connects.
pub proof fn codes_follow_health(snap: Option<&NetworkStatusSnapshot>)
    ensures
        health_code(snap) == 200 || health_code(snap) == 503,
        ready_code(snap) == 200 || ready_code(snap) == 503,
        snap is None ==> health_code(snap) == 503 && ready_code(snap) == 503,
        snap is Some && snap->0.health is Trouble <==> snap is Some && health_code(snap) == 503,
        snap is Some && snap->0.health is Connecting ==> health_code(snap) == 200 && ready_code(
            snap,
        ) == 503,
        ready_code(snap) == 200 ==> health_code(snap) == 200 && snap->0.open_connections > 0,
        health_code(snap) == 200 && ready_code(snap) == 503 ==> snap->0.open_connections == 0
            || snap->0.health is Connecting,
{
}

} // verus!
