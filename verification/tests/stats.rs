use delray::capture::Flow;
use delray::net::{Direction, IpAddress};
use delray::stats::{ObservedProcess, ProcessSnapshot, Stats};

fn flow(direction: Direction, peer: [u8; 4], bytes: u64) -> Flow {
    Flow {
        direction,
        peer: ip(peer),
        peer_port: None,
        bytes,
        local_socket: None,
        peer_local_socket: None,
    }
}

fn ip(octets: [u8; 4]) -> IpAddress {
    IpAddress::V4(u32::from_be_bytes(octets))
}

fn micros(text: &str) -> i64 {
    text.parse::<chrono::DateTime<chrono::Utc>>().unwrap().timestamp_micros()
}

fn process(pid: u32, name: Option<&str>, path: Option<&str>) -> ObservedProcess {
    ObservedProcess { pid, name: name.map(str::to_string), path: path.map(str::to_string) }
}

#[test]
fn unattributed_flow_appears_in_snapshot() {
    let mut stats = Stats::default();
    let observed_at = micros("2026-07-15T07:59:00Z");

    stats.record_flow_at(flow(Direction::Inbound, [10, 0, 0, 1], 40), None, observed_at);
    let snapshot = stats.snapshot(10);

    assert_eq!(snapshot.processes.len(), 1);
    assert_eq!(snapshot.processes[0].pid(), None);
    assert!(snapshot.processes[0].name().is_none());
    assert!(snapshot.processes[0].path().is_none());
    assert_eq!(snapshot.processes[0].last_seen(), observed_at);
    assert_eq!(snapshot.processes[0].recv, 40);
    assert_eq!(snapshot.processes[0].sent, 0);
}

#[test]
fn unattributed_flow_competes_for_top_n() {
    let mut stats = Stats::default();
    stats.record_flow(flow(Direction::Inbound, [10, 0, 0, 1], 10), Some(process(7, None, None)));
    stats.record_flow(flow(Direction::Inbound, [10, 0, 0, 2], 100), None);

    let snapshot = stats.snapshot(1);

    assert_eq!(snapshot.processes.len(), 1);
    assert_eq!(snapshot.processes[0].pid(), None);
    assert_eq!(snapshot.processes[0].recv, 100);
}

#[test]
fn empty_snapshot_has_no_unattributed_process() {
    let snapshot = Stats::default().snapshot(10);

    assert!(snapshot.processes.is_empty());
}

#[test]
fn same_pid_with_different_paths_has_distinct_traffic_history() {
    let mut stats = Stats::default();
    stats.record_flow(
        flow(Direction::Inbound, [10, 0, 0, 1], 40),
        Some(process(7, Some("old-curl"), Some("/opt/old/curl"))),
    );
    stats.record_flow(
        flow(Direction::Outbound, [10, 0, 0, 2], 60),
        Some(process(7, Some("new-curl"), Some("/opt/new/curl"))),
    );

    let snapshot = stats.snapshot(10);

    assert_eq!(snapshot.processes.len(), 2);
    let old = snapshot.processes.iter().find(|p| p.path() == Some("/opt/old/curl")).unwrap();
    let new = snapshot.processes.iter().find(|p| p.path() == Some("/opt/new/curl")).unwrap();
    assert_eq!((old.recv, old.sent), (40, 0));
    assert_eq!((new.recv, new.sent), (0, 60));
}

#[test]
fn last_seen_advances_only_when_flow_is_recorded() {
    let mut stats = Stats::default();
    let first = micros("2026-07-15T08:00:00Z");
    let second = micros("2026-07-15T08:01:30Z");
    let curl = || process(7, Some("curl"), Some("/usr/bin/curl"));

    stats.record_flow_at(flow(Direction::Inbound, [10, 0, 0, 1], 40), Some(curl()), first);
    assert_eq!(stats.snapshot(10).processes[0].last_seen(), first);

    let unchanged = stats.snapshot(10);
    assert_eq!(unchanged.processes[0].last_seen(), first);

    stats.record_flow_at(flow(Direction::Outbound, [10, 0, 0, 2], 60), Some(curl()), second);
    let updated = stats.snapshot(10);
    assert_eq!((updated.processes[0].recv, updated.processes[0].sent), (40, 60));
    assert_eq!(updated.processes[0].last_seen(), second);
}

#[test]
fn process_buckets_partition_captured_traffic() {
    let mut stats = Stats::default();
    stats.record_flow(flow(Direction::Inbound, [10, 0, 0, 1], 40), Some(process(7, None, None)));
    stats.record_flow(flow(Direction::Outbound, [10, 0, 0, 2], 10), Some(process(7, None, None)));
    stats.record_flow(flow(Direction::Inbound, [10, 0, 0, 3], 30), None);
    stats.record_flow(flow(Direction::Outbound, [10, 0, 0, 4], 20), None);

    let snapshot = stats.snapshot(10);
    let process_in: u64 = snapshot.processes.iter().map(|p| p.recv).sum();
    let process_out: u64 = snapshot.processes.iter().map(|p| p.sent).sum();

    assert_eq!(snapshot.in_bytes, 70);
    assert_eq!(snapshot.out_bytes, 30);
    assert_eq!(process_in, snapshot.in_bytes);
    assert_eq!(process_out, snapshot.out_bytes);
}

#[test]
fn snapshot_returns_ranked_top_n() {
    let mut stats = Stats::default();
    let name = "curl --silent";

    stats.record_flow(flow(Direction::Inbound, [10, 0, 0, 1], 40), Some(process(7, Some(name), None)));
    stats.record_flow(flow(Direction::Outbound, [10, 0, 0, 2], 60), Some(process(7, Some(name), None)));
    stats.record_flow(flow(Direction::Inbound, [10, 0, 0, 3], 30), Some(process(8, None, None)));
    stats.record_flow(flow(Direction::Inbound, [10, 0, 0, 4], 10), Some(process(9, None, None)));

    let snapshot = stats.snapshot(2);

    assert_eq!(snapshot.in_bytes, 80);
    assert_eq!(snapshot.out_bytes, 60);
    assert_eq!(snapshot.processes.len(), 2);
    assert_eq!(snapshot.processes[0].pid(), Some(7));
    assert_eq!(snapshot.processes[0].name(), Some("curl --silent"));
    assert_eq!(snapshot.processes[0].recv, 40);
    assert_eq!(snapshot.processes[0].sent, 60);
    assert_eq!(snapshot.processes[1].pid(), Some(8));
    assert!(snapshot.processes[1].name().is_none());
    assert!(snapshot.processes[1].path().is_none());
    assert!(!snapshot.processes.iter().any(|p| p.pid() == Some(9)));
    assert_eq!(snapshot.inbound_ips.len(), 2);
    assert_eq!(snapshot.inbound_ips[0].ip, ip([10, 0, 0, 1]));
    assert_eq!(snapshot.inbound_ips[0].bytes, 40);
    assert!(!snapshot.inbound_ips.iter().any(|entry| entry.ip == ip([10, 0, 0, 4])));
    assert_eq!(snapshot.outbound_ips.len(), 1);
    assert_eq!(snapshot.outbound_ips[0].ip, ip([10, 0, 0, 2]));
}

#[test]
fn first_known_name_is_kept_for_a_bucket() {
    let mut stats = Stats::default();
    stats.record_flow(flow(Direction::Outbound, [10, 0, 0, 1], 50), Some(process(9, None, None)));
    stats.record_flow(flow(Direction::Outbound, [10, 0, 0, 1], 5), Some(process(9, Some("nginx"), None)));
    stats.record_flow(flow(Direction::Outbound, [10, 0, 0, 1], 5), Some(process(9, Some("other"), None)));

    let snapshot = stats.snapshot(1);
    assert_eq!(snapshot.processes[0].name(), Some("nginx"));
    assert_eq!(snapshot.processes[0].display_name(), "nginx");
    assert_eq!(snapshot.processes[0].sent, 60);
    assert_eq!(snapshot.outbound_ips[0].bytes, 60);
}

#[test]
fn zero_top_n_gives_empty_lists_and_room_is_checked() {
    let mut stats = Stats::default();
    stats.record_flow(flow(Direction::Inbound, [10, 0, 0, 1], 40), None);
    let snapshot = stats.snapshot(0);
    assert!(snapshot.processes.is_empty());
    assert!(snapshot.inbound_ips.is_empty());
    assert_eq!(snapshot.in_bytes, 40);
    assert!(stats.has_room_for(&flow(Direction::Inbound, [10, 0, 0, 1], u64::MAX - 40)));
    assert!(!stats.has_room_for(&flow(Direction::Inbound, [10, 0, 0, 1], u64::MAX - 39)));
}

#[test]
fn statistical_identity_is_pid_and_path() {
    let a = ProcessSnapshot::attributed(7, Some("curl".to_string()), Some("/usr/bin/curl".to_string()), 0, 1, 2);
    let renamed = ProcessSnapshot::attributed(7, Some("other".to_string()), Some("/usr/bin/curl".to_string()), 5, 0, 0);
    let moved = ProcessSnapshot::attributed(7, Some("curl".to_string()), Some("/opt/curl".to_string()), 0, 1, 2);
    let unattributed = ProcessSnapshot::unattributed(1, 2, 0);
    assert!(a.same_identity_as(&renamed));
    assert!(!a.same_identity_as(&moved));
    assert!(!a.same_identity_as(&unattributed));
    assert!(unattributed.same_identity_as(&ProcessSnapshot::unattributed(0, 0, 9)));
    assert_eq!(a.total(), 3);
    assert_eq!(ProcessSnapshot::unattributed(u64::MAX, 1, 0).total(), u64::MAX);
}
