//! Summaries of the headers that `etherparse` decodes from a frame.

use vstd::prelude::*;

use etherparse::{NetHeaders as N, PacketHeaders as P, TransportHeader as T};

use crate::net::TransportProtocol;
use crate::net::TransportProtocol::{Tcp, Udp};

verus! {

/// The network-layer header of a decoded packet, as plain values.
#[derive(Clone, Copy, Debug)]
pub enum NetSummary {
    /// IPv4: source, destination and the header's total length field.
    V4([u8; 4], [u8; 4], u16),
    /// IPv6: source, destination and the header's payload length field.
    V6([u8; 16], [u8; 16], u16),
    /// A network header that is not IP (ARP).
    Other,
}

/// The transport-layer header of a decoded packet, when it is TCP or UDP.
/// Fields: protocol, source port, destination port.
#[derive(Clone, Copy, Debug)]
pub struct PortSummary(pub TransportProtocol, pub u16, pub u16);

/// What the packet parser reads of a decoded packet.
#[derive(Debug)]
pub struct HeaderSummary {
    /// Lengths of the VLAN / MACsec headers between the link and network headers.
    pub link_ext_lens: Vec<u64>,
    pub net: Option<NetSummary>,
    pub transport: Option<PortSummary>,
}

/// Spec-level value of a [`HeaderSummary`].
pub ghost struct HeaderView {
    pub link_ext_lens: Seq<u64>,
    pub net: Option<NetSummary>,
    pub transport: Option<PortSummary>,
}

impl View for HeaderSummary {
    type V = HeaderView;

    open spec fn view(&self) -> HeaderView {
        HeaderView {
            link_ext_lens: self.link_ext_lens@,
            net: self.net,
            transport: self.transport,
        }
    }
}

/// Facts about every decoded packet that `etherparse`'s source shows: at most
/// three link extension headers (`PacketHeaders::LINK_EXTS_CAP`), each at most
/// 16 bytes long (VLAN: 4, MACsec: 6 + 8 + 2 at most).
pub open spec fn header_bounds(h: HeaderView) -> bool {
    &&& h.link_ext_lens.len() <= 3
    &&& forall|i: int| 0 <= i < h.link_ext_lens.len() ==> #[trigger] h.link_ext_lens[i] <= 16
}

/// What `etherparse::PacketHeaders::from_ethernet_slice` decodes from a frame
/// that starts with an Ethernet II header (`None` when it reports an error).
pub uninterp spec fn ethernet_headers_of(frame: Seq<u8>) -> Option<HeaderView>;

/// What `etherparse::PacketHeaders::from_ip_slice` decodes from a packet that
/// starts with an IP header (`None` when it reports an error).
pub uninterp spec fn ip_headers_of(packet: Seq<u8>) -> Option<HeaderView>;

/// Calls `etherparse::PacketHeaders::from_ethernet_slice` and keeps the link
/// extension lengths, the IP addresses and length field, and the TCP/UDP ports.
/// The contract says that the result is the decoded headers of `frame`, with
/// the bounds that the crate's link extension headers have.
#[verifier::external_body]
pub(crate) fn ethernet_headers(frame: &[u8]) -> (r: Option<HeaderSummary>)
    ensures
        r matches Some(h) ==> ethernet_headers_of(frame@) == Some(h@) && header_bounds(h@),
        r is None ==> ethernet_headers_of(frame@) is None,
{
    let h = P::from_ethernet_slice(frame).ok()?;
    Some(HeaderSummary {
        link_ext_lens: h.link_exts.iter().map(|e| e.header_len() as u64).collect(),
        net: h.net.map(|n| match n {
            N::Ipv4(ip, _) => NetSummary::V4(ip.source, ip.destination, ip.total_len),
            N::Ipv6(ip, _) => NetSummary::V6(ip.source, ip.destination, ip.payload_length),
            N::Arp(_) => NetSummary::Other,
        }),
        transport: match h.transport {
            Some(T::Tcp(t)) => Some(PortSummary(Tcp, t.source_port, t.destination_port)),
            Some(T::Udp(u)) => Some(PortSummary(Udp, u.source_port, u.destination_port)),
            _ => None,
        },
    })
}

/// Calls `etherparse::PacketHeaders::from_ip_slice` and keeps the IP
/// addresses and length field and the TCP/UDP ports. The contract says that
/// the result is the decoded headers of `packet`, with the bounds that the
/// crate's link extension headers have.
#[verifier::external_body]
pub(crate) fn ip_headers(packet: &[u8]) -> (r: Option<HeaderSummary>)
    ensures
        r matches Some(h) ==> ip_headers_of(packet@) == Some(h@) && header_bounds(h@),
        r is None ==> ip_headers_of(packet@) is None,
{
    let h = P::from_ip_slice(packet).ok()?;
    Some(HeaderSummary {
        link_ext_lens: h.link_exts.iter().map(|e| e.header_len() as u64).collect(),
        net: h.net.map(|n| match n {
            N::Ipv4(ip, _) => NetSummary::V4(ip.source, ip.destination, ip.total_len),
            N::Ipv6(ip, _) => NetSummary::V6(ip.source, ip.destination, ip.payload_length),
            N::Arp(_) => NetSummary::Other,
        }),
        transport: match h.transport {
            Some(T::Tcp(t)) => Some(PortSummary(Tcp, t.source_port, t.destination_port)),
            Some(T::Udp(u)) => Some(PortSummary(Udp, u.source_port, u.destination_port)),
            _ => None,
        },
    })
}

} // verus!
