use delray::capture::{
    parse, Flow, LINKTYPE_ETHERNET, LINKTYPE_IPV4, LINKTYPE_IPV6, LINKTYPE_LINUX_SLL,
    LINKTYPE_LINUX_SLL2, LINKTYPE_LOOP, LINKTYPE_NULL, LINKTYPE_RAW, LINUX_DLT_RAW,
};
use delray::net::{Direction, IpAddress, TransportProtocol};
use delray::stats::{ObservedProcess, Stats};

#[derive(Clone, Copy, PartialEq)]
enum Version {
    V4,
    V6,
}

#[derive(Clone, Copy)]
struct ExpectedFlow {
    direction: Direction,
    peer: IpAddress,
    local_ip: IpAddress,
    local_port: u16,
    protocol: TransportProtocol,
    bytes: u64,
}

fn v4(octets: [u8; 4]) -> IpAddress {
    IpAddress::V4(u32::from_be_bytes(octets))
}

fn v6(octets: [u8; 16]) -> IpAddress {
    IpAddress::V6(u128::from_be_bytes(octets))
}

const LOCAL_V6: [u8; 16] = [0x20, 1, 0x0d, 0xb8, 0, 0, 0, 0, 0, 0, 0, 0, 0, 0, 0, 0x10];
const REMOTE_V6: [u8; 16] = [0x20, 1, 0x0d, 0xb8, 0, 0, 0, 0, 0, 0, 0, 0, 0, 0, 0, 5];

#[test]
fn non_tcp_udp_flow_has_no_local_socket() {
    let local_ips = [v4([192, 0, 2, 10])];

    let icmp = parse(LINKTYPE_ETHERNET, &ipv4_frame(1, 28, &[8, 0, 0, 0, 0, 0, 0, 0]), &local_ips)
        .expect("supported data link")
        .expect("outbound ICMP flow");

    assert!(icmp.local_socket.is_none());
}

#[test]
fn unsupported_data_link_type_returns_an_error() {
    let error = match parse(999, &[], &[]) {
        Err(error) => error,
        Ok(_) => panic!("unsupported data link type was accepted"),
    };

    assert_eq!(error.message(), "Unsupported data link type: 999");
}

#[test]
fn supported_link_types_parse_tcp_udp_ipv4_and_ipv6() {
    let local_ips = [v4([192, 0, 2, 10]), v6(LOCAL_V6)];
    let link_types: [(i32, &[Version]); 9] = [
        (LINKTYPE_ETHERNET, &[Version::V4, Version::V6]),
        (LINKTYPE_RAW, &[Version::V4, Version::V6]),
        (LINUX_DLT_RAW, &[Version::V4, Version::V6]),
        (LINKTYPE_IPV4, &[Version::V4]),
        (LINKTYPE_IPV6, &[Version::V6]),
        (LINKTYPE_NULL, &[Version::V4, Version::V6]),
        (LINKTYPE_LOOP, &[Version::V4, Version::V6]),
        (LINKTYPE_LINUX_SLL, &[Version::V4, Version::V6]),
        (LINKTYPE_LINUX_SLL2, &[Version::V4, Version::V6]),
    ];

    for (link_type, versions) in link_types {
        for version in versions {
            for protocol in [TransportProtocol::Tcp, TransportProtocol::Udp] {
                let (ip_packet, mut expected) = fixed_ip_packet(*version, protocol);
                let packet = add_link_header(link_type, *version, ip_packet);
                expected.bytes = packet.len() as u64;

                let flow = parse(link_type, &packet, &local_ips)
                    .expect("supported data link")
                    .expect("local flow");

                assert_flow(flow, expected);
            }
        }
    }
}

#[test]
fn parsed_packets_keep_network_direction_through_interface_and_process_stats() {
    let local = [192, 0, 2, 10];
    let inbound_peer = [198, 51, 100, 5];
    let outbound_peer = [203, 0, 113, 9];
    let inbound_transport = fixed_transport(TransportProtocol::Tcp, Direction::Inbound);
    let outbound_transport = fixed_transport(TransportProtocol::Tcp, Direction::Outbound);
    let inbound = add_link_header(
        LINKTYPE_ETHERNET,
        Version::V4,
        ipv4_packet_between(
            inbound_peer,
            local,
            ip_protocol(TransportProtocol::Tcp),
            (20 + inbound_transport.len()) as u16,
            &inbound_transport,
        ),
    );
    let outbound = add_link_header(
        LINKTYPE_ETHERNET,
        Version::V4,
        ipv4_packet_between(
            local,
            outbound_peer,
            ip_protocol(TransportProtocol::Tcp),
            (20 + outbound_transport.len()) as u16,
            &outbound_transport,
        ),
    );
    let local_ips = [v4(local)];
    let process = ObservedProcess {
        pid: 7,
        name: Some("wget".to_string()),
        path: Some("/usr/bin/wget".to_string()),
    };
    let mut stats = Stats::new();

    let inbound_flow = parse(LINKTYPE_ETHERNET, &inbound, &local_ips).unwrap().unwrap();
    let outbound_flow = parse(LINKTYPE_ETHERNET, &outbound, &local_ips).unwrap().unwrap();
    assert!(matches!(inbound_flow.direction, Direction::Inbound));
    assert!(matches!(outbound_flow.direction, Direction::Outbound));

    let inbound_bytes = inbound_flow.bytes;
    let outbound_bytes = outbound_flow.bytes;
    stats.record_flow(inbound_flow, Some(process.duplicate()));
    stats.record_flow(outbound_flow, Some(process));
    let snapshot = stats.snapshot(10);
    let wget = snapshot.processes.iter().find(|process| process.pid() == Some(7)).unwrap();

    assert_eq!(snapshot.in_bytes, inbound_bytes);
    assert_eq!(snapshot.out_bytes, outbound_bytes);
    assert_eq!(snapshot.inbound_ips[0].ip, v4(inbound_peer));
    assert_eq!(snapshot.outbound_ips[0].ip, v4(outbound_peer));
    assert_eq!((wget.recv, wget.sent), (inbound_bytes, outbound_bytes));
}

#[test]
fn local_tcp_response_accounts_source_as_sent_and_destination_as_recv() {
    let local = [127, 0, 0, 1];
    let server_port = 18_765_u16;
    let client_port = 49_152_u16;
    let mut transport = Vec::new();
    transport.extend_from_slice(&server_port.to_be_bytes());
    transport.extend_from_slice(&client_port.to_be_bytes());
    transport.extend_from_slice(&[0; 8]);
    transport.extend_from_slice(&[0x50, 0x10, 0, 0, 0, 0, 0, 0]);
    let packet = add_link_header(
        LINKTYPE_ETHERNET,
        Version::V4,
        ipv4_packet_between(
            local,
            local,
            ip_protocol(TransportProtocol::Tcp),
            (20 + transport.len()) as u16,
            &transport,
        ),
    );
    let local_ips = [v4(local)];

    let flow = parse(LINKTYPE_ETHERNET, &packet, &local_ips).unwrap().expect("local loopback flow");
    let source = flow.local_socket.expect("source local socket");
    let destination = flow.peer_local_socket.expect("destination local socket");
    assert_eq!(source.port, server_port);
    assert_eq!(destination.port, client_port);

    let bytes = flow.bytes;
    let mut stats = Stats::new();
    let observed_at = "2026-07-15T08:00:00Z"
        .parse::<chrono::DateTime<chrono::Utc>>()
        .unwrap()
        .timestamp_micros();
    stats.record_flow_processes_at(
        flow,
        Some(ObservedProcess {
            pid: 18765,
            name: Some("python".to_string()),
            path: Some("/usr/bin/python".to_string()),
        }),
        Some(ObservedProcess {
            pid: 49152,
            name: Some("curl".to_string()),
            path: Some("/usr/bin/curl".to_string()),
        }),
        observed_at,
    );

    let snapshot = stats.snapshot(10);
    let server = snapshot.processes.iter().find(|process| process.pid() == Some(18765)).unwrap();
    let client = snapshot.processes.iter().find(|process| process.pid() == Some(49152)).unwrap();

    assert_eq!(snapshot.in_bytes, bytes);
    assert_eq!(snapshot.out_bytes, bytes);
    assert_eq!((server.recv, server.sent), (0, bytes));
    assert_eq!((client.recv, client.sent), (bytes, 0));
}

#[test]
fn linux_dlt_raw_12_parses_raw_ip() {
    let (packet, mut expected) = fixed_ip_packet(Version::V4, TransportProtocol::Udp);
    expected.bytes = packet.len() as u64;
    let local_ips = [expected.local_ip];

    let flow = parse(12, &packet, &local_ips)
        .expect("Linux DLT_RAW is supported")
        .expect("local raw IP flow");

    assert_flow(flow, expected);
}

#[test]
fn linux_sll_local_outgoing_copy_is_ignored() {
    let local = [127, 0, 0, 1];
    let transport = fixed_transport(TransportProtocol::Tcp, Direction::Outbound);
    let ip_packet = ipv4_packet_between(
        local,
        local,
        ip_protocol(TransportProtocol::Tcp),
        (20 + transport.len()) as u16,
        &transport,
    );
    let local_ips = [v4(local)];

    for link_type in [LINKTYPE_LINUX_SLL, LINKTYPE_LINUX_SLL2] {
        let mut outgoing = add_link_header(link_type, Version::V4, ip_packet.clone());
        set_sll_packet_type(&mut outgoing, link_type, 4);
        let outgoing_flow = parse(link_type, &outgoing, &local_ips).expect("supported data link");
        assert!(outgoing_flow.is_none());

        let mut host = add_link_header(link_type, Version::V4, ip_packet.clone());
        set_sll_packet_type(&mut host, link_type, 0);
        let host_flow = parse(link_type, &host, &local_ips)
            .expect("supported data link")
            .expect("host copy is retained");
        assert!(host_flow.peer_local_socket.is_some());
    }
}

#[test]
fn linux_sll_remote_outgoing_copy_is_retained() {
    let local_ips = [v4([192, 0, 2, 10])];

    for link_type in [LINKTYPE_LINUX_SLL, LINKTYPE_LINUX_SLL2] {
        let (payload, mut expected) = fixed_ip_packet(Version::V4, TransportProtocol::Udp);
        let mut packet = add_link_header(link_type, Version::V4, payload);
        set_sll_packet_type(&mut packet, link_type, 4);
        expected.bytes = packet.len() as u64;

        let flow = parse(link_type, &packet, &local_ips)
            .expect("supported data link")
            .expect("remote outgoing flow is retained");

        assert_flow(flow, expected);
    }
}

#[test]
fn null_and_loop_accept_both_address_family_endiannesses() {
    let (payload, expected) = fixed_ip_packet(Version::V4, TransportProtocol::Udp);
    let local_ips = [expected.local_ip];

    for link_type in [LINKTYPE_NULL, LINKTYPE_LOOP] {
        for family in
            [address_family(Version::V4).to_be_bytes(), address_family(Version::V4).to_le_bytes()]
        {
            let mut packet = family.to_vec();
            packet.extend_from_slice(&payload);
            let mut expected = expected;
            expected.bytes = packet.len() as u64;

            let flow = parse(link_type, &packet, &local_ips)
                .expect("supported data link")
                .expect("address family endian is accepted");

            assert_flow(flow, expected);
        }
    }
}

#[test]
fn bytes_ignore_padding_after_ip_packet() {
    let (payload, mut expected) = fixed_ip_packet(Version::V4, TransportProtocol::Udp);
    let local_ips = [expected.local_ip];
    let mut packet = add_link_header(LINKTYPE_ETHERNET, Version::V4, payload);
    expected.bytes = packet.len() as u64;
    packet.extend_from_slice(&[0; 16]);

    let flow = parse(LINKTYPE_ETHERNET, &packet, &local_ips)
        .expect("supported data link")
        .expect("padded frame");

    assert_flow(flow, expected);
}

#[test]
fn link_protocol_identifier_must_match_ip_payload() {
    let local_ips = [v4([192, 0, 2, 10]), v6(LOCAL_V6)];
    let mismatches = [
        (LINKTYPE_IPV4, Version::V4, Version::V6),
        (LINKTYPE_IPV6, Version::V6, Version::V4),
        (LINKTYPE_NULL, Version::V4, Version::V6),
        (LINKTYPE_NULL, Version::V6, Version::V4),
        (LINKTYPE_LOOP, Version::V4, Version::V6),
        (LINKTYPE_LOOP, Version::V6, Version::V4),
        (LINKTYPE_LINUX_SLL, Version::V4, Version::V6),
        (LINKTYPE_LINUX_SLL, Version::V6, Version::V4),
        (LINKTYPE_LINUX_SLL2, Version::V4, Version::V6),
        (LINKTYPE_LINUX_SLL2, Version::V6, Version::V4),
    ];

    for (link_type, advertised_version, payload_version) in mismatches {
        let (payload, _) = fixed_ip_packet(payload_version, TransportProtocol::Udp);
        let packet = add_link_header(link_type, advertised_version, payload);

        let flow = parse(link_type, &packet, &local_ips).expect("supported data link");

        assert!(flow.is_none());
    }
}

#[test]
fn unsupported_link_protocol_identifier_is_ignored() {
    let local_ips = [v4([192, 0, 2, 10])];
    let (payload, _) = fixed_ip_packet(Version::V4, TransportProtocol::Udp);
    let mut null = 999_u32.to_ne_bytes().to_vec();
    null.extend_from_slice(&payload);
    let mut loop_packet = 999_u32.to_be_bytes().to_vec();
    loop_packet.extend_from_slice(&payload);
    let mut sll = vec![0, 0, 0, 1, 0, 6, 0, 1, 2, 3, 4, 5, 0, 0, 0x08, 0x06];
    sll.extend_from_slice(&payload);
    let mut sll2 = vec![0x08, 0x06, 0, 0, 0, 0, 0, 1, 0, 1, 0, 6, 0, 1, 2, 3, 4, 5, 0, 0];
    sll2.extend_from_slice(&payload);

    for (link_type, packet) in [
        (LINKTYPE_NULL, null),
        (LINKTYPE_LOOP, loop_packet),
        (LINKTYPE_LINUX_SLL, sll),
        (LINKTYPE_LINUX_SLL2, sll2),
    ] {
        let flow = parse(link_type, &packet, &local_ips).expect("supported data link");
        assert!(flow.is_none());
    }
}

#[test]
fn traffic_not_belonging_to_the_host_is_ignored() {
    let packet = ipv4_packet_between(
        [198, 51, 100, 5],
        [203, 0, 113, 9],
        17,
        28,
        &[0, 53, 0x14, 0xe9, 0, 8, 0, 0],
    );
    let local_ips = [v4([192, 0, 2, 10])];

    let flow = parse(LINKTYPE_RAW, &packet, &local_ips).expect("supported raw data link");

    assert!(flow.is_none());
}

#[test]
fn truncated_frames_give_no_flow() {
    let (payload, _) = fixed_ip_packet(Version::V4, TransportProtocol::Tcp);
    let packet = add_link_header(LINKTYPE_ETHERNET, Version::V4, payload);
    let local_ips = [v4([192, 0, 2, 10])];
    for cut in [0, 5, 14, 20, 33] {
        let flow = parse(LINKTYPE_ETHERNET, &packet[..cut], &local_ips).expect("supported");
        assert!(flow.is_none(), "a frame cut at {cut} bytes gives no flow");
    }
}

fn ipv4_frame(protocol: u8, total_length: u16, transport: &[u8]) -> Vec<u8> {
    let mut frame = vec![0, 1, 2, 3, 4, 5, 6, 7, 8, 9, 10, 11, 0x08, 0x00];
    frame.extend_from_slice(&ipv4_packet_between(
        [192, 0, 2, 10],
        [198, 51, 100, 5],
        protocol,
        total_length,
        transport,
    ));
    frame
}

fn fixed_ip_packet(version: Version, protocol: TransportProtocol) -> (Vec<u8>, ExpectedFlow) {
    let direction =
        if protocol == TransportProtocol::Tcp { Direction::Inbound } else { Direction::Outbound };
    let transport = fixed_transport(protocol, direction);
    let (packet, local_ip, peer) = match version {
        Version::V4 => {
            let local = [192, 0, 2, 10];
            let remote = [198, 51, 100, 5];
            let (source, destination) = endpoints(direction, local, remote);
            (
                ipv4_packet_between(
                    source,
                    destination,
                    ip_protocol(protocol),
                    (20 + transport.len()) as u16,
                    &transport,
                ),
                v4(local),
                v4(remote),
            )
        }
        Version::V6 => {
            let (source, destination) = endpoints(direction, LOCAL_V6, REMOTE_V6);
            (
                ipv6_packet_between(source, destination, ip_protocol(protocol), &transport),
                v6(LOCAL_V6),
                v6(REMOTE_V6),
            )
        }
    };
    let local_port = if protocol == TransportProtocol::Tcp { 12_345 } else { 5_353 };
    (packet, ExpectedFlow { direction, peer, local_ip, local_port, protocol, bytes: 0 })
}

fn fixed_transport(protocol: TransportProtocol, direction: Direction) -> Vec<u8> {
    let local_port = if protocol == TransportProtocol::Tcp { 12_345_u16 } else { 5_353_u16 };
    let remote_port = if protocol == TransportProtocol::Tcp { 443_u16 } else { 53_u16 };
    let (source_port, destination_port) = endpoints(direction, local_port, remote_port);
    let mut transport = Vec::new();
    transport.extend_from_slice(&source_port.to_be_bytes());
    transport.extend_from_slice(&destination_port.to_be_bytes());
    match protocol {
        TransportProtocol::Tcp => {
            transport.extend_from_slice(&[0; 8]);
            transport.extend_from_slice(&[0x50, 2, 0, 0, 0, 0, 0, 0]);
        }
        TransportProtocol::Udp => transport.extend_from_slice(&[0, 8, 0, 0]),
    }
    transport
}

fn endpoints<T: Copy>(direction: Direction, local: T, remote: T) -> (T, T) {
    if direction == Direction::Outbound {
        (local, remote)
    } else {
        (remote, local)
    }
}

fn ip_protocol(protocol: TransportProtocol) -> u8 {
    match protocol {
        TransportProtocol::Tcp => 6,
        TransportProtocol::Udp => 17,
    }
}

fn ipv4_packet_between(
    source: [u8; 4],
    destination: [u8; 4],
    protocol: u8,
    total_length: u16,
    transport: &[u8],
) -> Vec<u8> {
    let mut packet = vec![0x45, 0];
    packet.extend_from_slice(&total_length.to_be_bytes());
    packet.extend_from_slice(&[0, 0, 0, 0, 64, protocol, 0, 0]);
    packet.extend_from_slice(&source);
    packet.extend_from_slice(&destination);
    packet.extend_from_slice(transport);
    packet
}

fn ipv6_packet_between(
    source: [u8; 16],
    destination: [u8; 16],
    next_header: u8,
    transport: &[u8],
) -> Vec<u8> {
    let mut packet = vec![0x60, 0, 0, 0];
    packet.extend_from_slice(&(transport.len() as u16).to_be_bytes());
    packet.extend_from_slice(&[next_header, 64]);
    packet.extend_from_slice(&source);
    packet.extend_from_slice(&destination);
    packet.extend_from_slice(transport);
    packet
}

fn add_link_header(link_type: i32, version: Version, packet: Vec<u8>) -> Vec<u8> {
    let ether_type = match version {
        Version::V4 => [0x08, 0x00],
        Version::V6 => [0x86, 0xdd],
    };
    let mut header = if link_type == LINKTYPE_ETHERNET {
        let mut header = vec![0, 1, 2, 3, 4, 5, 6, 7, 8, 9, 10, 11];
        header.extend_from_slice(&ether_type);
        header
    } else if link_type == LINKTYPE_NULL {
        address_family(version).to_ne_bytes().to_vec()
    } else if link_type == LINKTYPE_LOOP {
        address_family(version).to_be_bytes().to_vec()
    } else if link_type == LINKTYPE_LINUX_SLL {
        let mut header = vec![0, 0, 0, 1, 0, 6, 0, 1, 2, 3, 4, 5, 0, 0];
        header.extend_from_slice(&ether_type);
        header
    } else if link_type == LINKTYPE_LINUX_SLL2 {
        let mut header = ether_type.to_vec();
        header.extend_from_slice(&[0, 0, 0, 0, 0, 1, 0, 1, 0, 6, 0, 1, 2, 3, 4, 5, 0, 0]);
        header
    } else {
        Vec::new()
    };
    header.extend_from_slice(&packet);
    header
}

fn set_sll_packet_type(packet: &mut [u8], link_type: i32, packet_type: u16) {
    if link_type == LINKTYPE_LINUX_SLL {
        packet[..2].copy_from_slice(&packet_type.to_be_bytes());
    } else if link_type == LINKTYPE_LINUX_SLL2 {
        packet[10] = packet_type as u8;
    }
}

fn address_family(version: Version) -> u32 {
    match version {
        Version::V4 => 2,
        Version::V6 => 10,
    }
}

fn assert_flow(flow: Flow, expected: ExpectedFlow) {
    assert!(flow.direction == expected.direction);
    assert_eq!(flow.peer, expected.peer);
    assert_eq!(flow.bytes, expected.bytes);
    let socket = flow.local_socket.expect("local socket");
    assert_eq!(socket.ip, expected.local_ip);
    assert_eq!(socket.port, expected.local_port);
    assert_eq!(socket.protocol, expected.protocol);
}
