//! Decoding captured link-layer frames into one-way traffic records.

use vstd::prelude::*;

use crate::headers::{
    ethernet_headers, ethernet_headers_of, header_bounds, ip_headers, ip_headers_of, HeaderSummary,
    HeaderView, NetSummary, PortSummary,
};
use crate::net::{Direction, IpAddress, LocalSocket};
use crate::text::{signed_decimal, signed_decimal_string};

verus! {

// libpcap LINKTYPE_* numbers of the data link types that are decoded.
pub const LINKTYPE_NULL: i32 = 0;
pub const LINKTYPE_ETHERNET: i32 = 1;
pub const LINKTYPE_RAW: i32 = 101;
pub const LINKTYPE_LOOP: i32 = 108;
pub const LINKTYPE_LINUX_SLL: i32 = 113;
pub const LINKTYPE_IPV4: i32 = 228;
pub const LINKTYPE_IPV6: i32 = 229;
pub const LINKTYPE_LINUX_SLL2: i32 = 276;
/// Live Linux handles report raw IP as DLT_RAW (12) rather than LINKTYPE_RAW (101).
pub const LINUX_DLT_RAW: i32 = 12;

/// How the bytes in front of the IP header are laid out.
#[derive(Clone, Copy, Debug, PartialEq, Eq, Structural)]
pub enum PacketFormat {
    Ethernet,
    Raw,
    Ipv4,
    Ipv6,
    Null,
    Loop,
    LinuxSll,
    LinuxSll2,
}

#[derive(Clone, Copy, Debug, PartialEq, Eq, Structural)]
pub enum IpVersion {
    V4,
    V6,
}

/// The packet type field of a Linux cooked capture header.
#[derive(Clone, Copy, Debug, PartialEq, Eq, Structural)]
pub enum SllPacketType {
    Host,
    Outgoing,
    Other,
}

/// Where the IP packet starts in a frame and what the link header says of it.
#[derive(Clone, Copy, Debug, PartialEq, Eq, Structural)]
pub struct IpPayload {
    /// Offset of the IP header in the frame.
    pub start: usize,
    pub expected_version: Option<IpVersion>,
    /// Bytes of link header counted into the traffic volume.
    pub link_len: u64,
    pub sll_packet_type: Option<SllPacketType>,
}

/// A one-way traffic record decoded from one frame.
#[derive(Clone, Copy, Debug, PartialEq, Eq, Structural)]
pub struct Flow {
    pub direction: Direction,
    /// The remote address (the destination when both ends are local).
    pub peer: IpAddress,
    /// The remote TCP/UDP port, when the packet is TCP or UDP.
    pub peer_port: Option<u16>,
    /// Link, link extension and IP bytes of the frame (padding excluded).
    pub bytes: u64,
    /// The local socket, for TCP and UDP only.
    pub local_socket: Option<LocalSocket>,
    /// The destination socket, when source and destination are both local.
    pub peer_local_socket: Option<LocalSocket>,
}

impl Flow {
    /// A second local socket only comes with the first, on a packet sent by this host.
    pub open spec fn wf(self) -> bool {
        self.peer_local_socket is Some ==> self.local_socket is Some && self.direction
            == Direction::Outbound
    }
}

/// Errors of the capture layer.
#[derive(Clone, Copy, Debug, PartialEq, Eq, Structural)]
pub enum CaptureError {
    /// The capture handle reports a data link type that is not decoded.
    UnsupportedLinkType(i32),
}

impl CaptureError {
    pub open spec fn spec_message(self) -> Seq<char> {
        match self {
            CaptureError::UnsupportedLinkType(t) => "Unsupported data link type: "@ + signed_decimal(
                t as int,
            ),
        }
    }

    /// The message shown to the user.
    pub fn message(&self) -> (r: String)
        ensures
            r@ == self.spec_message(),
    {
        match self {
            CaptureError::UnsupportedLinkType(t) => {
                let prefix = String::from_str("Unsupported data link type: ");
                let number = signed_decimal_string(*t as i64);
                prefix.concat(number.as_str())
            },
        }
    }
}

// ---------------------------------------------------------------------------
// Link types

pub open spec fn spec_packet_format(link_type: i32) -> Option<PacketFormat> {
    if link_type == LINKTYPE_ETHERNET {
        Some(PacketFormat::Ethernet)
    } else if link_type == LINKTYPE_RAW || link_type == LINUX_DLT_RAW {
        Some(PacketFormat::Raw)
    } else if link_type == LINKTYPE_IPV4 {
        Some(PacketFormat::Ipv4)
    } else if link_type == LINKTYPE_IPV6 {
        Some(PacketFormat::Ipv6)
    } else if link_type == LINKTYPE_NULL {
        Some(PacketFormat::Null)
    } else if link_type == LINKTYPE_LOOP {
        Some(PacketFormat::Loop)
    } else if link_type == LINKTYPE_LINUX_SLL {
        Some(PacketFormat::LinuxSll)
    } else if link_type == LINKTYPE_LINUX_SLL2 {
        Some(PacketFormat::LinuxSll2)
    } else {
        None
    }
}

/// The frame layout of a data link type, or an error for a type that is not decoded.
pub fn packet_format(link_type: i32) -> (r: Result<PacketFormat, CaptureError>)
    ensures
        match spec_packet_format(link_type) {
            Some(f) => r == Ok::<PacketFormat, CaptureError>(f),
            None => r == Err::<PacketFormat, CaptureError>(
                CaptureError::UnsupportedLinkType(link_type),
            ),
        },
{
    if link_type == LINKTYPE_ETHERNET {
        Ok(PacketFormat::Ethernet)
    } else if link_type == LINKTYPE_RAW || link_type == LINUX_DLT_RAW {
        Ok(PacketFormat::Raw)
    } else if link_type == LINKTYPE_IPV4 {
        Ok(PacketFormat::Ipv4)
    } else if link_type == LINKTYPE_IPV6 {
        Ok(PacketFormat::Ipv6)
    } else if link_type == LINKTYPE_NULL {
        Ok(PacketFormat::Null)
    } else if link_type == LINKTYPE_LOOP {
        Ok(PacketFormat::Loop)
    } else if link_type == LINKTYPE_LINUX_SLL {
        Ok(PacketFormat::LinuxSll)
    } else if link_type == LINKTYPE_LINUX_SLL2 {
        Ok(PacketFormat::LinuxSll2)
    } else {
        Err(CaptureError::UnsupportedLinkType(link_type))
    }
}

// ---------------------------------------------------------------------------
// Small field decoders

pub open spec fn be16(b0: u8, b1: u8) -> int {
    b0 as int * 256 + b1 as int
}

pub open spec fn be32(b0: u8, b1: u8, b2: u8, b3: u8) -> int {
    ((b0 as int * 256 + b1 as int) * 256 + b2 as int) * 256 + b3 as int
}

pub open spec fn spec_sll_packet_type(packet_type: u16) -> SllPacketType {
    if packet_type == 0 {
        SllPacketType::Host
    } else if packet_type == 4 {
        SllPacketType::Outgoing
    } else {
        SllPacketType::Other
    }
}

/// Classifies the packet type field of a Linux cooked header (0: to us, 4: sent by us).
pub fn sll_packet_type(packet_type: u16) -> (r: SllPacketType)
    ensures
        r == spec_sll_packet_type(packet_type),
{
    match packet_type {
        0 => SllPacketType::Host,
        4 => SllPacketType::Outgoing,
        _ => SllPacketType::Other,
    }
}

pub open spec fn spec_ip_version(data: Seq<u8>) -> Option<IpVersion> {
    if data.len() == 0 {
        None
    } else if data[0] / 16 == 4 {
        Some(IpVersion::V4)
    } else if data[0] / 16 == 6 {
        Some(IpVersion::V6)
    } else {
        None
    }
}

/// The IP version in the high nibble of the first byte of a packet.
pub fn ip_version(data: &[u8]) -> (r: Option<IpVersion>)
    ensures
        r == spec_ip_version(data@),
{
    if data.len() == 0 {
        return None;
    }
    let nibble = data[0] / 16;
    if nibble == 4 {
        Some(IpVersion::V4)
    } else if nibble == 6 {
        Some(IpVersion::V6)
    } else {
        None
    }
}

/// Whether an EtherType is IPv4, by `etherparse::EtherType::IPV4` (0x0800).
#[verifier::external_body]
fn ether_type_is_ipv4(ether_type: u16) -> (r: bool)
    ensures
        r == (ether_type == 0x0800),
{
    etherparse::EtherType(ether_type) == etherparse::EtherType::IPV4
}

/// Whether an EtherType is IPv6, by `etherparse::EtherType::IPV6` (0x86dd).
#[verifier::external_body]
fn ether_type_is_ipv6(ether_type: u16) -> (r: bool)
    ensures
        r == (ether_type == 0x86dd),
{
    etherparse::EtherType(ether_type) == etherparse::EtherType::IPV6
}

pub open spec fn spec_ip_version_from_ether_type(ether_type: u16) -> Option<IpVersion> {
    if ether_type == 0x0800 {
        Some(IpVersion::V4)
    } else if ether_type == 0x86dd {
        Some(IpVersion::V6)
    } else {
        None
    }
}

/// The IP version that an EtherType announces.
pub fn ip_version_from_ether_type(ether_type: u16) -> (r: Option<IpVersion>)
    ensures
        r == spec_ip_version_from_ether_type(ether_type),
{
    if ether_type_is_ipv4(ether_type) {
        Some(IpVersion::V4)
    } else if ether_type_is_ipv6(ether_type) {
        Some(IpVersion::V6)
    } else {
        None
    }
}

pub open spec fn spec_ip_version_from_address_family(family: u32) -> Option<IpVersion> {
    if family == 2 {
        Some(IpVersion::V4)
    } else if family == 10 || family == 23 || family == 24 || family == 28 || family == 30 {
        Some(IpVersion::V6)
    } else {
        None
    }
}

/// The IP version of a BSD loopback address family (AF_INET, or one of the
/// platform values of AF_INET6).
pub fn ip_version_from_address_family(family: u32) -> (r: Option<IpVersion>)
    ensures
        r == spec_ip_version_from_address_family(family),
{
    match family {
        2 => Some(IpVersion::V4),
        10 | 23 | 24 | 28 | 30 => Some(IpVersion::V6),
        _ => None,
    }
}

pub open spec fn spec_ip_version_from_family_header(h: Seq<u8>) -> Option<IpVersion> {
    let big = spec_ip_version_from_address_family(be32(h[0], h[1], h[2], h[3]) as u32);
    if big is Some {
        big
    } else {
        spec_ip_version_from_address_family(be32(h[3], h[2], h[1], h[0]) as u32)
    }
}

fn read_u32(b0: u8, b1: u8, b2: u8, b3: u8) -> (r: u32)
    ensures
        r as int == be32(b0, b1, b2, b3),
{
    ((b0 as u32 * 256 + b1 as u32) * 256 + b2 as u32) * 256 + b3 as u32
}

/// The IP version of a NULL/LOOP address-family header, read big-endian and
/// then little-endian.
pub fn ip_version_from_family_header(header: &[u8]) -> (r: Option<IpVersion>)
    requires
        header.len() == 4,
    ensures
        r == spec_ip_version_from_family_header(header@),
{
    let big = ip_version_from_address_family(read_u32(header[0], header[1], header[2], header[3]));
    if big.is_some() {
        big
    } else {
        ip_version_from_address_family(read_u32(header[3], header[2], header[1], header[0]))
    }
}

// ---------------------------------------------------------------------------
// Link headers

pub open spec fn payload_at(
    start: int,
    expected: Option<IpVersion>,
    link_len: int,
    sll: Option<SllPacketType>,
) -> Option<IpPayload> {
    Some(
        IpPayload {
            start: start as usize,
            expected_version: expected,
            link_len: link_len as u64,
            sll_packet_type: sll,
        },
    )
}

/// Where the IP packet starts in a frame of a non-Ethernet layout, or `None`
/// when the link header is short or announces something other than IP.
pub open spec fn spec_ip_payload(format: PacketFormat, data: Seq<u8>) -> Option<IpPayload> {
    match format {
        PacketFormat::Raw => payload_at(0, None, 0, None),
        PacketFormat::Ipv4 => payload_at(0, Some(IpVersion::V4), 0, None),
        PacketFormat::Ipv6 => payload_at(0, Some(IpVersion::V6), 0, None),
        PacketFormat::Null | PacketFormat::Loop => {
            if data.len() < 4 {
                None
            } else {
                match spec_ip_version_from_family_header(data) {
                    Some(v) => payload_at(4, Some(v), 4, None),
                    None => None,
                }
            }
        },
        PacketFormat::LinuxSll => {
            if data.len() < 16 {
                None
            } else {
                match spec_ip_version_from_ether_type(be16(data[14], data[15]) as u16) {
                    Some(v) => payload_at(
                        16,
                        Some(v),
                        16,
                        Some(spec_sll_packet_type(be16(data[0], data[1]) as u16)),
                    ),
                    None => None,
                }
            }
        },
        PacketFormat::LinuxSll2 => {
            if data.len() < 20 {
                None
            } else {
                match spec_ip_version_from_ether_type(be16(data[0], data[1]) as u16) {
                    Some(v) => payload_at(
                        20,
                        Some(v),
                        20,
                        Some(spec_sll_packet_type(data[10] as u16)),
                    ),
                    None => None,
                }
            }
        },
        PacketFormat::Ethernet => None,
    }
}

fn read_u16(b0: u8, b1: u8) -> (r: u16)
    ensures
        r as int == be16(b0, b1),
{
    b0 as u16 * 256 + b1 as u16
}

/// Locates the IP packet in a frame of a non-Ethernet layout.
pub fn ip_payload(format: PacketFormat, data: &[u8]) -> (r: Option<IpPayload>)
    ensures
        r == spec_ip_payload(format, data@),
        r matches Some(p) ==> p.start <= data.len(),
{
    match format {
        PacketFormat::Raw => Some(
            IpPayload { start: 0, expected_version: None, link_len: 0, sll_packet_type: None },
        ),
        PacketFormat::Ipv4 => Some(
            IpPayload {
                start: 0,
                expected_version: Some(IpVersion::V4),
                link_len: 0,
                sll_packet_type: None,
            },
        ),
        PacketFormat::Ipv6 => Some(
            IpPayload {
                start: 0,
                expected_version: Some(IpVersion::V6),
                link_len: 0,
                sll_packet_type: None,
            },
        ),
        PacketFormat::Null | PacketFormat::Loop => {
            if data.len() < 4 {
                return None;
            }
            let family = ip_version_from_family_header(&data[0..4]);
            assert(data@.subrange(0, 4) =~= seq![data@[0], data@[1], data@[2], data@[3]]);
            match family {
                Some(v) => Some(
                    IpPayload {
                        start: 4,
                        expected_version: Some(v),
                        link_len: 4,
                        sll_packet_type: None,
                    },
                ),
                None => None,
            }
        },
        PacketFormat::LinuxSll => {
            if data.len() < 16 {
                return None;
            }
            let packet_type = read_u16(data[0], data[1]);
            let ether_type = read_u16(data[14], data[15]);
            match ip_version_from_ether_type(ether_type) {
                Some(v) => Some(
                    IpPayload {
                        start: 16,
                        expected_version: Some(v),
                        link_len: 16,
                        sll_packet_type: Some(sll_packet_type(packet_type)),
                    },
                ),
                None => None,
            }
        },
        PacketFormat::LinuxSll2 => {
            if data.len() < 20 {
                return None;
            }
            let ether_type = read_u16(data[0], data[1]);
            let packet_type = data[10];
            match ip_version_from_ether_type(ether_type) {
                Some(v) => Some(
                    IpPayload {
                        start: 20,
                        expected_version: Some(v),
                        link_len: 20,
                        sll_packet_type: Some(sll_packet_type(packet_type as u16)),
                    },
                ),
                None => None,
            }
        },
        PacketFormat::Ethernet => None,
    }
}

// ---------------------------------------------------------------------------
// Addresses and flows

pub open spec fn ipv4_value(b: Seq<u8>) -> int {
    be32(b[0], b[1], b[2], b[3])
}

pub open spec fn ipv6_value(b: Seq<u8>) -> int
    decreases b.len(),
{
    if b.len() == 0 {
        0
    } else {
        ipv6_value(b.drop_last()) * 256 + b.last() as int
    }
}

/// Source, destination and IP byte count of a network header, when it is IP.
pub open spec fn spec_ip_endpoints(net: NetSummary) -> Option<(IpAddress, IpAddress, int)> {
    match net {
        NetSummary::V4(s, d, total) => Some(
            (
                IpAddress::V4(ipv4_value(s@) as u32),
                IpAddress::V4(ipv4_value(d@) as u32),
                total as int,
            ),
        ),
        NetSummary::V6(s, d, payload) => Some(
            (
                IpAddress::V6(ipv6_value(s@) as u128),
                IpAddress::V6(ipv6_value(d@) as u128),
                payload as int + 40,
            ),
        ),
        NetSummary::Other => None,
    }
}

pub open spec fn sum_u64(s: Seq<u64>) -> int
    decreases s.len(),
{
    if s.len() == 0 {
        0
    } else {
        sum_u64(s.drop_last()) + s.last() as int
    }
}

/// The flow that the decoded headers of a frame describe, seen from a host
/// that owns the addresses `local`.
///
/// Traffic between two other hosts is not ours (`None`); a frame that Linux
/// hands over twice on a local-to-local path is counted once, on its inbound
/// copy; the local socket and the peer port are known for TCP and UDP only.
pub open spec fn spec_flow(
    h: HeaderView,
    is_ethernet: bool,
    link_len: int,
    sll: Option<SllPacketType>,
    local: Seq<IpAddress>,
) -> Option<Flow> {
    match h.net {
        None => None,
        Some(net) => match spec_ip_endpoints(net) {
            None => None,
            Some((src, dst, ip_bytes)) => {
                let ext = if is_ethernet {
                    sum_u64(h.link_ext_lens)
                } else {
                    0
                };
                let src_local = local.contains(src);
                let dst_local = local.contains(dst);
                if src_local && dst_local && sll == Some(SllPacketType::Outgoing) {
                    None
                } else if !src_local && !dst_local {
                    None
                } else {
                    let direction = if src_local {
                        Direction::Outbound
                    } else {
                        Direction::Inbound
                    };
                    let (local_ip, peer) = if src_local {
                        (src, dst)
                    } else {
                        (dst, src)
                    };
                    let (local_socket, peer_local_socket, peer_port) = match h.transport {
                        Some(PortSummary(protocol, sp, dp)) => (
                            Some(
                                LocalSocket {
                                    ip: local_ip,
                                    port: if src_local {
                                        sp
                                    } else {
                                        dp
                                    },
                                    protocol,
                                },
                            ),
                            if src_local && dst_local {
                                Some(LocalSocket { ip: dst, port: dp, protocol })
                            } else {
                                None
                            },
                            Some(
                                if src_local {
                                    dp
                                } else {
                                    sp
                                },
                            ),
                        ),
                        None => (None, None, None),
                    };
                    Some(
                        Flow {
                            direction,
                            peer,
                            peer_port,
                            bytes: (link_len + ext + ip_bytes) as u64,
                            local_socket,
                            peer_local_socket,
                        },
                    )
                }
            },
        },
    }
}

/// Law: a flow is seen from its local end. It is outbound exactly when the
/// source address is local, and its peer is the other end. A TCP or UDP
/// packet, whatever the protocol, gives a flow with both the local socket
/// (the local end's address, port and protocol) and the peer's port (the
/// destination port of an outbound flow, the source port of an inbound one);
/// a packet without ports gives a flow with neither.
pub proof fn flows_carry_the_ports_of_their_ends(
    h: HeaderView,
    is_ethernet: bool,
    link_len: int,
    sll: Option<SllPacketType>,
    local: Seq<IpAddress>,
)
    ensures
        spec_flow(h, is_ethernet, link_len, sll, local) matches Some(f) ==> {
            &&& (f.local_socket is Some <==> f.peer_port is Some)
            &&& h.net matches Some(net) && spec_ip_endpoints(net) matches Some((src, dst, _))
                && (f.direction == Direction::Outbound) == local.contains(src) && f.peer == (
            if f.direction == Direction::Outbound {
                dst
            } else {
                src
            }) && match h.transport {
                Some(PortSummary(protocol, sp, dp)) => {
                    &&& f.peer_port == Some(
                        if f.direction == Direction::Outbound {
                            dp
                        } else {
                            sp
                        },
                    )
                    &&& f.local_socket == Some(
                        LocalSocket {
                            ip: if f.direction == Direction::Outbound {
                                src
                            } else {
                                dst
                            },
                            port: if f.direction == Direction::Outbound {
                                sp
                            } else {
                                dp
                            },
                            protocol,
                        },
                    )
                },
                None => f.local_socket is None && f.peer_port is None && f.peer_local_socket is None,
            }
        },
{
}

/// Law: a decoded IP packet gives a flow exactly when it is this host's
/// traffic: one of its ends is local, and it is not the outgoing copy of a
/// packet between two local addresses. The flow counts the link header, the
/// VLAN/MACsec headers of an Ethernet frame and the IP bytes; it names the
/// destination socket too when both ends are local. A packet that is not IP
/// gives no flow.
pub proof fn flows_are_this_hosts_traffic(
    h: HeaderView,
    is_ethernet: bool,
    link_len: int,
    sll: Option<SllPacketType>,
    local: Seq<IpAddress>,
)
    ensures
        ({
            let r = spec_flow(h, is_ethernet, link_len, sll, local);
            match h.net {
                Some(net) => match spec_ip_endpoints(net) {
                    Some((src, dst, ip_bytes)) => {
                        &&& r is None <==> (!local.contains(src) && !local.contains(dst)) || (
                        local.contains(src) && local.contains(dst) && sll == Some(
                            SllPacketType::Outgoing,
                        ))
                        &&& r matches Some(f) ==> {
                            &&& f.bytes == (link_len + (if is_ethernet {
                                sum_u64(h.link_ext_lens)
                            } else {
                                0
                            }) + ip_bytes) as u64
                            &&& f.peer_local_socket == match h.transport {
                                Some(PortSummary(protocol, _, dp)) => if local.contains(src)
                                    && local.contains(dst) {
                                    Some(LocalSocket { ip: dst, port: dp, protocol })
                                } else {
                                    None
                                },
                                None => None,
                            }
                        }
                    },
                    None => r is None,
                },
                None => r is None,
            }
        }),
{
}

/// The flow a frame of the given layout describes, using the names for what
/// `etherparse` decodes.
pub open spec fn spec_parse(format: PacketFormat, data: Seq<u8>, local: Seq<IpAddress>) -> Option<
    Flow,
> {
    if format == PacketFormat::Ethernet {
        match ethernet_headers_of(data) {
            Some(h) => spec_flow(h, true, 14, None, local),
            None => None,
        }
    } else {
        match spec_ip_payload(format, data) {
            None => None,
            Some(p) => {
                let packet = data.subrange(p.start as int, data.len() as int);
                if p.expected_version is Some && spec_ip_version(packet) != p.expected_version {
                    None
                } else {
                    match ip_headers_of(packet) {
                        Some(h) => spec_flow(h, false, p.link_len as int, p.sll_packet_type, local),
                        None => None,
                    }
                }
            },
        }
    }
}

fn ipv4_address(b: [u8; 4]) -> (r: IpAddress)
    ensures
        r == IpAddress::V4(ipv4_value(b@) as u32),
{
    IpAddress::V4(read_u32(b[0], b[1], b[2], b[3]))
}

fn ipv6_address(b: [u8; 16]) -> (r: IpAddress)
    ensures
        r == IpAddress::V6(ipv6_value(b@) as u128),
{
    let mut value: u128 = 0;
    let mut i: usize = 0;
    while i < 16
        invariant
            i <= 16,
            value as int == ipv6_value(b@.subrange(0, i as int)),
            value as int <= pow256(i as nat) - 1,
        decreases 16 - i,
    {
        proof {
            assert(b@.subrange(0, i + 1).drop_last() =~= b@.subrange(0, i as int));
            lemma_pow256_step(i as nat);
            lemma_pow256_bound(i as nat);
            assert(value * 256 + b[i as int] <= pow256(i as nat) * 256 - 1) by (nonlinear_arith)
                requires
                    value <= pow256(i as nat) - 1,
                    b[i as int] <= 255,
            ;
        }
        value = value * 256 + b[i] as u128;
        i += 1;
    }
    assert(b@.subrange(0, 16) =~= b@);
    IpAddress::V6(value)
}

pub open spec fn pow256(n: nat) -> int
    decreases n,
{
    if n == 0 {
        1
    } else {
        pow256((n - 1) as nat) * 256
    }
}

proof fn lemma_pow256_step(n: nat)
    ensures
        pow256(n + 1) == pow256(n) * 256,
{
}

proof fn lemma_pow256_bound(n: nat)
    requires
        n < 16,
    ensures
        pow256(n) * 256 <= 0x1_0000_0000_0000_0000_0000_0000_0000_0000,
{
    lemma_pow256_monotone(n + 1);
    reveal_with_fuel(pow256, 17);
    assert(pow256(16) == 0x1_0000_0000_0000_0000_0000_0000_0000_0000);
}

proof fn lemma_pow256_monotone(n: nat)
    requires
        n <= 16,
    ensures
        0 < pow256(n) <= pow256(16),
    decreases 16 - n,
{
    lemma_pow256_positive(n);
    if n < 16 {
        lemma_pow256_monotone(n + 1);
    }
}

proof fn lemma_pow256_positive(n: nat)
    ensures
        pow256(n) > 0,
    decreases n,
{
    if n > 0 {
        lemma_pow256_positive((n - 1) as nat);
    }
}

fn ip_endpoints(net: NetSummary) -> (r: Option<(IpAddress, IpAddress, u64)>)
    ensures
        match spec_ip_endpoints(net) {
            Some((s, d, n)) => r == Some((s, d, n as u64)) && n <= 65535 + 40,
            None => r is None,
        },
{
    match net {
        NetSummary::V4(s, d, total) => Some((ipv4_address(s), ipv4_address(d), total as u64)),
        NetSummary::V6(s, d, payload) => Some(
            (ipv6_address(s), ipv6_address(d), payload as u64 + 40),
        ),
        NetSummary::Other => None,
    }
}

/// Whether `ip` is one of the host's addresses.
pub fn is_local(ip: IpAddress, local_ips: &[IpAddress]) -> (r: bool)
    ensures
        r == local_ips@.contains(ip),
{
    let mut i: usize = 0;
    while i < local_ips.len()
        invariant
            i <= local_ips.len(),
            forall|k: int| 0 <= k < i ==> local_ips@[k] != ip,
        decreases local_ips.len() - i,
    {
        if local_ips[i] == ip {
            return true;
        }
        i += 1;
    }
    false
}

fn sum_link_exts(lens: &Vec<u64>) -> (r: u64)
    requires
        lens@.len() <= 3,
        forall|i: int| 0 <= i < lens@.len() ==> #[trigger] lens@[i] <= 16,
    ensures
        r as int == sum_u64(lens@),
        r <= 48,
{
    let mut total: u64 = 0;
    let mut i: usize = 0;
    while i < lens.len()
        invariant
            i <= lens@.len(),
            lens@.len() <= 3,
            forall|k: int| 0 <= k < lens@.len() ==> #[trigger] lens@[k] <= 16,
            total as int == sum_u64(lens@.subrange(0, i as int)),
            total <= 16 * i,
        decreases lens@.len() - i,
    {
        assert(lens@.subrange(0, i + 1).drop_last() =~= lens@.subrange(0, i as int));
        total = total + lens[i];
        i += 1;
    }
    assert(lens@.subrange(0, lens@.len() as int) =~= lens@);
    total
}

/// The flow that decoded headers describe, for a host that owns `local_ips`.
/// `link_len` is the length of the fixed link header, `is_ethernet` whether
/// the VLAN/MACsec headers count into the volume too.
pub fn flow_from_headers(
    headers: &HeaderSummary,
    is_ethernet: bool,
    link_len: u64,
    sll: Option<SllPacketType>,
    local_ips: &[IpAddress],
) -> (r: Option<Flow>)
    requires
        header_bounds(headers@),
        link_len <= 20,
    ensures
        r == spec_flow(headers@, is_ethernet, link_len as int, sll, local_ips@),
        r matches Some(f) ==> f.wf(),
{
    let net = match headers.net {
        Some(net) => net,
        None => return None,
    };
    let (src, dst, ip_bytes) = match ip_endpoints(net) {
        Some(e) => e,
        None => return None,
    };
    let ext: u64 = if is_ethernet {
        sum_link_exts(&headers.link_ext_lens)
    } else {
        0
    };
    let bytes = link_len + ext + ip_bytes;
    let src_local = is_local(src, local_ips);
    let dst_local = is_local(dst, local_ips);
    if src_local && dst_local && sll == Some(SllPacketType::Outgoing) {
        return None;
    }
    let (direction, local_ip, peer) = if src_local {
        (Direction::Outbound, src, dst)
    } else if dst_local {
        (Direction::Inbound, dst, src)
    } else {
        return None;
    };
    let (local_socket, peer_local_socket, peer_port) = match headers.transport {
        Some(PortSummary(protocol, sp, dp)) => {
            let port = if src_local {
                sp
            } else {
                dp
            };
            let peer_local = if src_local && dst_local {
                Some(LocalSocket { ip: dst, port: dp, protocol })
            } else {
                None
            };
            let peer_port = if src_local {
                dp
            } else {
                sp
            };
            (Some(LocalSocket { ip: local_ip, port, protocol }), peer_local, Some(peer_port))
        },
        None => (None, None, None),
    };
    Some(Flow { direction, peer, peer_port, bytes, local_socket, peer_local_socket })
}

/// Decodes one captured frame of data link type `link_type` into a one-way
/// flow of this host (owner of `local_ips`). Frames that are not IP, that do
/// not match the IP version their link header announces, or that do not
/// belong to this host give `Ok(None)`; an undecoded link type is an error.
pub fn parse(link_type: i32, data: &[u8], local_ips: &[IpAddress]) -> (r: Result<
    Option<Flow>,
    CaptureError,
>)
    ensures
        match spec_packet_format(link_type) {
            None => r == Err::<Option<Flow>, CaptureError>(
                CaptureError::UnsupportedLinkType(link_type),
            ),
            Some(format) => r == Ok::<Option<Flow>, CaptureError>(
                spec_parse(format, data@, local_ips@),
            ),
        },
        r matches Ok(Some(f)) ==> f.wf(),
{
    let format = match packet_format(link_type) {
        Ok(f) => f,
        Err(e) => return Err(e),
    };
    if format == PacketFormat::Ethernet {
        return match ethernet_headers(data) {
            Some(h) => Ok(flow_from_headers(&h, true, 14, None, local_ips)),
            None => Ok(None),
        };
    }
    let payload = match ip_payload(format, data) {
        Some(p) => p,
        None => return Ok(None),
    };
    let packet = &data[payload.start..data.len()];
    if payload.expected_version.is_some() && ip_version(packet) != payload.expected_version {
        return Ok(None);
    }
    match ip_headers(packet) {
        Some(h) => Ok(
            flow_from_headers(&h, false, payload.link_len, payload.sll_packet_type, local_ips),
        ),
        None => Ok(None),
    }
}

} // verus!
