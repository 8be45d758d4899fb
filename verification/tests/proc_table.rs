use delray::net::{IpAddress, TransportProtocol};
use delray::proc_table::{executable_name, ListenerRecord, LookupOutcome, MissReason, ProcTable};

fn record(ip: IpAddress, port: u16, protocol: TransportProtocol, pid: u32, path: &str) -> ListenerRecord {
    ListenerRecord { ip, port, protocol, pid, path: path.to_string() }
}

const LOCALHOST_V4: IpAddress = IpAddress::V4(0x7f00_0001);
const LOCALHOST_V6: IpAddress = IpAddress::V6(1);

#[test]
fn injected_records_match_address_port_and_protocol() {
    let ip = IpAddress::V4(u32::from_be_bytes([192, 0, 2, 10]));
    let table = ProcTable::from_records(vec![
        record(ip, 443, TransportProtocol::Tcp, 7, "/usr/bin/curl"),
        record(ip, 443, TransportProtocol::Udp, 8, "/usr/bin/quiche"),
    ]);

    assert_eq!(table.lookup(ip, 443, TransportProtocol::Tcp).map(|p| p.pid), Some(7));
    assert_eq!(table.lookup(ip, 443, TransportProtocol::Udp).map(|p| p.pid), Some(8));
    assert!(table.lookup(ip, 80, TransportProtocol::Tcp).is_none());
}

#[test]
fn injected_records_support_ipv4_and_ipv6() {
    let table = ProcTable::from_records(vec![
        record(LOCALHOST_V4, 8080, TransportProtocol::Tcp, 10, "/opt/server4"),
        record(LOCALHOST_V6, 5353, TransportProtocol::Udp, 11, "/opt/server6"),
    ]);

    assert_eq!(table.lookup(LOCALHOST_V4, 8080, TransportProtocol::Tcp).map(|p| p.pid), Some(10));
    assert_eq!(table.lookup(LOCALHOST_V6, 5353, TransportProtocol::Udp).map(|p| p.pid), Some(11));
}

#[test]
fn process_display_name_uses_executable_file_name() {
    let table = ProcTable::from_records(vec![record(LOCALHOST_V4, 443, TransportProtocol::Tcp, 7, "/usr/bin/curl")]);

    let process = table
        .lookup(LOCALHOST_V4, 443, TransportProtocol::Tcp)
        .expect("injected listener should match");
    assert_eq!(process.name.as_deref(), Some("curl"));
    assert_eq!(process.path.as_deref(), Some("/usr/bin/curl"));
}

#[test]
fn missing_executable_path_has_no_display_name() {
    let table = ProcTable::from_records(vec![record(LOCALHOST_V4, 443, TransportProtocol::Tcp, 7, "")]);

    let process = table
        .lookup(LOCALHOST_V4, 443, TransportProtocol::Tcp)
        .expect("PID attribution should survive a missing path");
    assert!(process.name.is_none());
}

#[test]
fn lookup_outcomes_tell_misses_apart() {
    let mut table = ProcTable::new();
    assert!(matches!(
        table.lookup_outcome(LOCALHOST_V4, 80, TransportProtocol::Tcp),
        LookupOutcome::Miss(MissReason::NotFound)
    ));
    table.insert(LOCALHOST_V4, 80, TransportProtocol::Tcp, 1, "a".to_string(), None);
    table.insert(LOCALHOST_V4, 80, TransportProtocol::Tcp, 2, "b".to_string(), None);
    assert!(matches!(
        table.lookup_outcome(LOCALHOST_V4, 80, TransportProtocol::Tcp),
        LookupOutcome::Miss(MissReason::Ambiguous)
    ));
    table.mark_stale();
    assert!(matches!(
        table.lookup_outcome(LOCALHOST_V4, 80, TransportProtocol::Tcp),
        LookupOutcome::Miss(MissReason::Stale)
    ));
}

#[test]
fn ipv4_sockets_are_also_found_under_their_mapped_ipv6_address() {
    let mapped = IpAddress::V6(0xffff_7f00_0001);
    let mut table = ProcTable::new();
    table.insert(mapped, 8080, TransportProtocol::Tcp, 5, "srv".to_string(), None);
    match table.lookup_outcome(LOCALHOST_V4, 8080, TransportProtocol::Tcp) {
        LookupOutcome::Hit { process, v4_mapped } => {
            assert_eq!(process.pid, 5);
            assert!(v4_mapped);
        }
        LookupOutcome::Miss(reason) => panic!("expected a hit, got {reason:?}"),
    }
}

#[test]
fn every_new_table_is_a_new_generation() {
    let mut table = ProcTable::new();
    let first = table.generation();
    table.publish(ProcTable::from_records(Vec::new()));
    assert_ne!(table.generation(), first);
    assert!(table.is_fresh());
}

#[test]
fn executable_names_are_file_names() {
    assert_eq!(executable_name("/usr/bin/curl").as_deref(), Some("curl"));
    assert_eq!(executable_name("").as_deref(), None);
    assert_eq!(executable_name("/").as_deref(), None);
    assert_eq!(executable_name("/opt/x/..").as_deref(), None);
    assert_eq!(executable_name("curl").as_deref(), Some("curl"));
    assert_eq!(executable_name("bin/python3.12").as_deref(), Some("python3.12"));
}
