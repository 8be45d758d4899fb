use delray::capture::Flow;
use delray::net::{Direction, IpAddress, LocalSocket, TransportProtocol};
use delray::pipeline::{
    aggregate_action, capture_gone_failure, capture_step, consumer_gone_failure, latest_outcome,
    resolve_process, AggregateAction, CaptureAction, PipelineError, QueueEnd,
    STOP_CHECK_INTERVAL_MICROS,
};
use delray::proc_table::ProcTable;
use delray::stats::Stats;

fn v4(octets: [u8; 4]) -> IpAddress {
    IpAddress::V4(u32::from_be_bytes(octets))
}

fn socket_flow(local_ip: IpAddress, port: u16, bytes: u64) -> Flow {
    Flow {
        direction: Direction::Outbound,
        peer: v4([198, 51, 100, 5]),
        peer_port: Some(40000),
        bytes,
        local_socket: Some(LocalSocket { ip: local_ip, port, protocol: TransportProtocol::Tcp }),
        peer_local_socket: None,
    }
}

#[test]
fn try_latest_returns_newest_queued_snapshot() {
    let latest = latest_outcome(vec![1u64, 2], QueueEnd::Empty, None).unwrap().unwrap();
    assert_eq!(latest, 2);
    assert!(latest_outcome(Vec::<u64>::new(), QueueEnd::Empty, None).unwrap().is_none());
}

#[test]
fn disconnected_snapshot_worker_takes_priority_over_queued_snapshot() {
    let error = match latest_outcome(vec![3u64], QueueEnd::Disconnected, None) {
        Err(error) => error,
        Ok(_) => panic!("worker disconnect should take priority"),
    };
    assert!(matches!(error, PipelineError::WorkerStopped("aggregate")));
}

#[test]
fn terminal_failure_takes_priority_over_queued_snapshot() {
    let failure = PipelineError::Capture("pcap failed".to_string());
    let error = match latest_outcome(vec![7u64], QueueEnd::Empty, Some(failure)) {
        Err(error) => error,
        Ok(_) => panic!("terminal failure should take priority"),
    };
    assert!(matches!(error, PipelineError::Capture(message) if message == "pcap failed"));
}

#[test]
fn capture_loop_continues_after_no_flow() {
    assert!(matches!(capture_step(Ok(None)), CaptureAction::Continue));
    let flow = socket_flow(v4([127, 0, 0, 1]), 1, 99);
    assert!(matches!(capture_step(Ok(Some(flow))), CaptureAction::Forward(f) if f.bytes == 99));
    match capture_step(Err("device gone".to_string())) {
        CaptureAction::Fail(e) => assert_eq!(e.message(), "capture failed: device gone"),
        _ => panic!("a source error stops the capture worker"),
    }
}

#[test]
fn aggregation_waits_for_flows_until_a_snapshot_is_due() {
    assert_eq!(aggregate_action(true, 0, 10), AggregateAction::Stop);
    assert_eq!(aggregate_action(false, 10, 10), AggregateAction::Publish);
    assert_eq!(aggregate_action(false, 0, 30), AggregateAction::Wait(30));
    assert_eq!(
        aggregate_action(false, 0, 5_000_000),
        AggregateAction::Wait(STOP_CHECK_INTERVAL_MICROS)
    );
}

#[test]
fn stopped_workers_are_reported_only_when_unexpected() {
    assert!(consumer_gone_failure(true).is_none());
    assert!(matches!(
        consumer_gone_failure(false),
        Some(PipelineError::WorkerStopped("snapshot consumer"))
    ));
    assert!(capture_gone_failure(false, true).is_none());
    assert!(capture_gone_failure(true, false).is_none());
    let e = capture_gone_failure(false, false).unwrap();
    assert_eq!(e.message(), "traffic pipeline worker stopped unexpectedly: capture");
}

#[test]
fn aggregate_loop_resolves_process_before_snapshot() {
    let local_ip = v4([192, 0, 2, 10]);
    let mut table = ProcTable::new();
    table.insert(local_ip, 443, TransportProtocol::Tcp, 7, "curl".to_string(), None);
    let mut stats = Stats::new();
    let flow = socket_flow(local_ip, 443, 120);
    let process = resolve_process(&flow, &table);
    stats.record_flow(flow, process);

    let snapshot = stats.snapshot(10);
    assert_eq!(snapshot.processes.len(), 1);
    assert_eq!(snapshot.processes[0].pid(), Some(7));
    assert_eq!(snapshot.processes[0].name(), Some("curl"));
    assert_eq!(snapshot.processes[0].sent, 120);
}

#[test]
fn missing_and_ambiguous_candidates_are_unattributed() {
    let local_ip = v4([192, 0, 2, 10]);
    let mut table = ProcTable::new();
    table.insert(local_ip, 443, TransportProtocol::Tcp, 7, "server-a".to_string(), None);
    table.insert(local_ip, 443, TransportProtocol::Tcp, 8, "server-b".to_string(), None);
    let mut stats = Stats::new();

    for flow in [socket_flow(local_ip, 443, 40), socket_flow(local_ip, 80, 60)] {
        let process = resolve_process(&flow, &table);
        stats.record_flow(flow, process);
    }

    let snapshot = stats.snapshot(10);
    assert_eq!(snapshot.processes.len(), 1);
    assert!(snapshot.processes[0].is_unattributed());
    assert_eq!(snapshot.processes[0].sent, 100);
}

#[test]
fn recovered_resolution_does_not_reassign_historical_traffic() {
    let local_ip = v4([192, 0, 2, 10]);
    let mut table = ProcTable::new();
    let mut stats = Stats::new();
    let unresolved = socket_flow(local_ip, 443, 40);
    let process = resolve_process(&unresolved, &table);
    stats.record_flow(unresolved, process);

    table.insert(local_ip, 443, TransportProtocol::Tcp, 7, "curl".to_string(), None);
    let resolved = socket_flow(local_ip, 443, 60);
    let process = resolve_process(&resolved, &table);
    stats.record_flow(resolved, process);

    let snapshot = stats.snapshot(10);
    let unattributed = snapshot.processes.iter().find(|p| p.is_unattributed()).unwrap();
    let attributed = snapshot.processes.iter().find(|p| p.pid() == Some(7)).unwrap();
    assert_eq!(unattributed.sent, 40);
    assert_eq!(attributed.sent, 60);
}

#[test]
fn pipeline_errors_have_messages() {
    assert_eq!(
        PipelineError::WorkerStopped("aggregate").message(),
        "traffic pipeline worker stopped unexpectedly: aggregate"
    );
    assert_eq!(PipelineError::Capture("x".to_string()).message(), "capture failed: x");
}

#[test]
fn aggregate_loop_publishes_snapshot_without_flow() {
    // With no flow at all, a due snapshot is still published, and it is empty.
    assert_eq!(aggregate_action(false, 10_000, 10_000), AggregateAction::Publish);
    let snapshot = Stats::new().snapshot(10);
    assert_eq!(snapshot.in_bytes, 0);
}
