use delray::attribution::{PendingAttributor, PENDING_ATTRIBUTION_WINDOW_NANOS};
use delray::capture::Flow;
use delray::net::{Direction, IpAddress, LocalSocket, TransportProtocol};
use delray::proc_table::ProcTable;
use delray::stats::Stats;

const MILLI: u64 = 1_000_000;
const SECOND: u64 = 1_000_000_000;

fn v4(octets: [u8; 4]) -> IpAddress {
    IpAddress::V4(u32::from_be_bytes(octets))
}

fn socket_flow(local_ip: IpAddress, local_port: u16, peer_port: u16, bytes: u64) -> Flow {
    Flow {
        direction: Direction::Outbound,
        peer: v4([198, 51, 100, 5]),
        peer_port: Some(peer_port),
        bytes,
        local_socket: Some(LocalSocket { ip: local_ip, port: local_port, protocol: TransportProtocol::Tcp }),
        peer_local_socket: None,
    }
}

fn observed_at() -> i64 {
    "2026-07-17T08:00:00Z".parse::<chrono::DateTime<chrono::Utc>>().unwrap().timestamp_micros()
}

const LOCAL: [u8; 4] = [192, 0, 2, 10];

#[test]
fn continued_flow_is_pending_then_attributed_after_a_new_proc_table() {
    let local_ip = v4(LOCAL);
    let mut table = ProcTable::new();
    let mut stats = Stats::default();
    let mut attributor = PendingAttributor::with_defaults();
    let started = 5 * SECOND;

    attributor.record_flow(&mut stats, socket_flow(local_ip, 49_152, 443, 40), Some(&table), started, observed_at());
    assert_eq!(stats.snapshot(10).out_bytes, 40);
    assert!(stats.snapshot(10).processes.is_empty());
    assert_eq!(attributor.pending_bytes(), 40);

    table.insert(local_ip, 49_152, TransportProtocol::Tcp, 7, "curl".to_string(), Some("/usr/bin/curl".to_string()));
    attributor.record_flow(
        &mut stats,
        socket_flow(local_ip, 49_152, 443, 60),
        Some(&table),
        started + 10 * MILLI,
        observed_at() + 10_000,
    );

    let snapshot = stats.snapshot(10);
    let process = snapshot.processes.iter().find(|p| p.pid() == Some(7)).unwrap();
    assert_eq!(snapshot.out_bytes, 100);
    assert_eq!(process.sent, 100);
    assert_eq!(process.last_seen(), observed_at() + 10_000);
    assert_eq!(attributor.pending_bytes(), 0);
}

#[test]
fn short_flow_times_out_to_unattributed() {
    let local_ip = v4(LOCAL);
    let table = ProcTable::new();
    let mut stats = Stats::default();
    let mut attributor = PendingAttributor::with_defaults();
    let started = 5 * SECOND;

    attributor.record_flow(&mut stats, socket_flow(local_ip, 49_152, 443, 40), Some(&table), started, observed_at());
    attributor.advance(&mut stats, Some(&table), started + PENDING_ATTRIBUTION_WINDOW_NANOS);

    let snapshot = stats.snapshot(10);
    assert_eq!(snapshot.out_bytes, 40);
    assert!(snapshot.processes[0].is_unattributed());
    assert_eq!(snapshot.processes[0].sent, 40);
}

#[test]
fn delayed_attribution_uses_the_original_observation_time_for_last_seen() {
    let local_ip = v4(LOCAL);
    let mut table = ProcTable::new();
    let mut stats = Stats::default();
    let mut attributor = PendingAttributor::with_defaults();
    let started = 5 * SECOND;

    attributor.record_flow(&mut stats, socket_flow(local_ip, 49_152, 443, 40), Some(&table), started, observed_at());
    table.insert(local_ip, 49_152, TransportProtocol::Tcp, 7, "curl".to_string(), None);
    attributor.advance(&mut stats, Some(&table), started + 500 * MILLI);

    let snapshot = stats.snapshot(10);
    assert_eq!(snapshot.processes[0].pid(), Some(7));
    assert_eq!(snapshot.processes[0].last_seen(), observed_at());
}

#[test]
fn ambiguous_same_port_is_unattributed_when_pending_expires() {
    let local_ip = v4(LOCAL);
    let mut table = ProcTable::new();
    for (pid, name) in [(7, "server-a"), (8, "server-b")] {
        table.insert(local_ip, 443, TransportProtocol::Tcp, pid, name.to_string(), None);
    }
    let mut stats = Stats::default();
    let mut attributor = PendingAttributor::with_defaults();
    let started = 5 * SECOND;

    attributor.record_flow(&mut stats, socket_flow(local_ip, 443, 49_152, 40), Some(&table), started, observed_at());
    attributor.advance(&mut stats, Some(&table), started + PENDING_ATTRIBUTION_WINDOW_NANOS);

    let snapshot = stats.snapshot(10);
    assert!(snapshot.processes[0].is_unattributed());
    assert_eq!(snapshot.processes[0].sent, 40);
}

#[test]
fn failed_refresh_and_stale_proc_table_do_not_falsely_attribute_pending_traffic() {
    let local_ip = v4(LOCAL);
    let mut table = ProcTable::new();
    table.insert(local_ip, 49_152, TransportProtocol::Tcp, 7, "curl".to_string(), None);
    table.mark_stale();
    let mut stats = Stats::default();
    let mut attributor = PendingAttributor::with_defaults();
    let started = 5 * SECOND;

    attributor.record_flow(&mut stats, socket_flow(local_ip, 49_152, 443, 40), Some(&table), started, observed_at());
    attributor.advance(&mut stats, Some(&table), started + PENDING_ATTRIBUTION_WINDOW_NANOS);

    let snapshot = stats.snapshot(10);
    assert!(snapshot.processes[0].is_unattributed());
    assert_eq!(snapshot.processes[0].sent, 40);
}

#[test]
fn pending_capacity_overflow_finalizes_oldest_traffic_without_losing_totals() {
    let local_ip = v4(LOCAL);
    let table = ProcTable::new();
    let mut stats = Stats::default();
    let mut attributor = PendingAttributor::new(SECOND, 1);
    let started = 5 * SECOND;

    attributor.record_flow(&mut stats, socket_flow(local_ip, 49_152, 443, 40), Some(&table), started, observed_at());
    attributor.record_flow(
        &mut stats,
        socket_flow(local_ip, 49_153, 443, 60),
        Some(&table),
        started + MILLI,
        observed_at() + 1_000,
    );

    let snapshot = stats.snapshot(10);
    assert_eq!(snapshot.out_bytes, 100);
    assert_eq!(snapshot.processes[0].sent, 40);
    assert_eq!(attributor.pending_bytes(), 60);
    attributor.advance(&mut stats, Some(&table), started + SECOND + MILLI);
    assert_eq!(stats.snapshot(10).processes[0].sent, 100);
}

#[test]
fn same_connection_merges_pending_records_without_consuming_capacity() {
    let local_ip = v4(LOCAL);
    let table = ProcTable::new();
    let mut stats = Stats::default();
    let mut attributor = PendingAttributor::new(SECOND, 1);
    let started = 5 * SECOND;

    attributor.record_flow(&mut stats, socket_flow(local_ip, 49_152, 443, 40), Some(&table), started, observed_at());
    attributor.record_flow(
        &mut stats,
        socket_flow(local_ip, 49_152, 443, 60),
        Some(&table),
        started + MILLI,
        observed_at() + 1_000,
    );

    let snapshot = stats.snapshot(10);
    assert_eq!(snapshot.out_bytes, 100);
    assert!(snapshot.processes.is_empty());
    assert_eq!(attributor.pending_bytes(), 100);
}

#[test]
fn reused_local_port_with_a_different_peer_port_keeps_distinct_pending_records() {
    let local_ip = v4(LOCAL);
    let table = ProcTable::new();
    let mut stats = Stats::default();
    let mut attributor = PendingAttributor::new(SECOND, 1);
    let started = 5 * SECOND;

    attributor.record_flow(&mut stats, socket_flow(local_ip, 49_152, 443, 40), Some(&table), started, observed_at());
    attributor.record_flow(
        &mut stats,
        socket_flow(local_ip, 49_152, 444, 60),
        Some(&table),
        started + MILLI,
        observed_at() + 1_000,
    );

    let snapshot = stats.snapshot(10);
    assert_eq!(snapshot.out_bytes, 100);
    assert!(snapshot.processes[0].is_unattributed());
    assert_eq!(snapshot.processes[0].sent, 40);
    assert_eq!(attributor.pending_bytes(), 60);
}

#[test]
fn a_miss_in_a_readable_table_asks_for_a_refresh() {
    let local_ip = v4(LOCAL);
    let table = ProcTable::new();
    let mut stats = Stats::default();
    let mut attributor = PendingAttributor::with_defaults();
    let refresh = attributor.record_flow(&mut stats, socket_flow(local_ip, 1, 443, 40), Some(&table), 0, 0);
    assert!(refresh);
    let refresh = attributor.record_flow(&mut stats, socket_flow(local_ip, 2, 443, 40), None, 1, 0);
    assert!(!refresh);
    assert_eq!(attributor.snapshot().records, 2);
    assert_eq!(attributor.snapshot().bytes, 80);
}

#[test]
fn traffic_is_conserved_across_queue_and_buckets() {
    let local_ip = v4(LOCAL);
    let mut table = ProcTable::new();
    let mut stats = Stats::default();
    let mut attributor = PendingAttributor::new(SECOND, 2);
    for (i, port) in [1000u16, 1001, 1002, 1000].iter().enumerate() {
        attributor.record_flow(&mut stats, socket_flow(local_ip, *port, 443, 10 + i as u64), Some(&table), i as u64 * MILLI, 0);
    }
    table.insert(local_ip, 1001, TransportProtocol::Tcp, 3, "x".to_string(), None);
    attributor.advance(&mut stats, Some(&table), 10 * MILLI);
    let snapshot = stats.snapshot(10);
    let in_buckets: u64 = snapshot.processes.iter().map(|p| p.sent).sum();
    assert_eq!(in_buckets + attributor.pending_bytes(), snapshot.out_bytes);
    assert_eq!(snapshot.out_bytes, 10 + 11 + 12 + 13);
}

#[test]
fn traffic_committed_as_unattributed_stays_there_after_a_new_table() {
    let local_ip = v4(LOCAL);
    let mut table = ProcTable::new();
    let mut stats = Stats::default();
    let mut attributor = PendingAttributor::with_defaults();

    attributor.record_flow(&mut stats, socket_flow(local_ip, 49_152, 443, 40), Some(&table), 0, observed_at());
    attributor.advance(&mut stats, Some(&table), PENDING_ATTRIBUTION_WINDOW_NANOS);
    table.insert(local_ip, 49_152, TransportProtocol::Tcp, 7, "curl".to_string(), None);
    attributor.advance(&mut stats, Some(&table), PENDING_ATTRIBUTION_WINDOW_NANOS + MILLI);
    attributor.record_flow(
        &mut stats,
        socket_flow(local_ip, 49_152, 443, 60),
        Some(&table),
        PENDING_ATTRIBUTION_WINDOW_NANOS + 2 * MILLI,
        observed_at(),
    );

    let snapshot = stats.snapshot(10);
    let unattributed = snapshot.processes.iter().find(|p| p.is_unattributed()).unwrap();
    let curl = snapshot.processes.iter().find(|p| p.pid() == Some(7)).unwrap();
    assert_eq!(unattributed.sent, 40);
    assert_eq!(curl.sent, 60);
}

#[test]
fn a_queue_without_capacity_commits_unattributed_at_once() {
    let local_ip = v4(LOCAL);
    let table = ProcTable::new();
    let mut stats = Stats::default();
    let mut attributor = PendingAttributor::new(SECOND, 0);

    attributor.record_flow(&mut stats, socket_flow(local_ip, 49_152, 443, 40), Some(&table), 0, observed_at());

    let snapshot = stats.snapshot(10);
    assert_eq!(snapshot.out_bytes, 40);
    assert!(snapshot.processes[0].is_unattributed());
    assert_eq!(snapshot.processes[0].sent, 40);
    assert_eq!(attributor.snapshot().records, 0);
}

#[test]
fn traffic_without_a_peer_port_is_unattributed_at_once() {
    let local_ip = v4(LOCAL);
    let table = ProcTable::new();
    let mut stats = Stats::default();
    let mut attributor = PendingAttributor::with_defaults();
    let mut flow = socket_flow(local_ip, 49_152, 443, 25);
    flow.peer_port = None;
    flow.direction = Direction::Inbound;

    let refresh = attributor.record_flow(&mut stats, flow, Some(&table), 0, observed_at() + 7);

    assert!(!refresh);
    let snapshot = stats.snapshot(10);
    assert_eq!(snapshot.in_bytes, 25);
    assert!(snapshot.processes[0].is_unattributed());
    assert_eq!(snapshot.processes[0].received(), 25);
    assert_eq!(snapshot.processes[0].last_seen(), observed_at() + 7);
    assert_eq!(attributor.pending_bytes(), 0);
}
