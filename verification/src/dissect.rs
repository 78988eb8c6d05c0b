//! Dissection of an Ethernet frame into the fields that the analysis records.

use etherparse::{NetSlice, SlicedPacket, TransportSlice};
use vstd::prelude::*;

use crate::modbus::{is_modbus_tcp, modbus_tcp_spec};
use crate::text::{format_ipv4, format_mac, ipv4_text, mac_text};

verus! {

/// The transport layer of a frame as the dissector reports it.
pub enum Transport {
    /// TCP: source port, destination port, payload.
    Tcp(u16, u16, Vec<u8>),
    /// UDP: source port, destination port, payload.
    Udp(u16, u16, Vec<u8>),
    /// ICMP over IPv4.
    Icmpv4,
    /// Any other transport layer, or none.
    Other,
}

/// The plain value of a [`Transport`].
pub enum TransportView {
    Tcp(u16, u16, Seq<u8>),
    Udp(u16, u16, Seq<u8>),
    Icmpv4,
    Other,
}

impl View for Transport {
    type V = TransportView;

    open spec fn view(&self) -> TransportView {
        match self {
            Transport::Tcp(s, d, p) => TransportView::Tcp(*s, *d, p@),
            Transport::Udp(s, d, p) => TransportView::Udp(*s, *d, p@),
            Transport::Icmpv4 => TransportView::Icmpv4,
            Transport::Other => TransportView::Other,
        }
    }
}

/// The layers of a frame that starts with an Ethernet II header: the IPv4
/// source and destination addresses when the network layer is IPv4, and the
/// transport layer.
pub struct EthernetSlices {
    pub ipv4: Option<([u8; 4], [u8; 4])>,
    pub transport: Transport,
}

/// The plain value of [`EthernetSlices`].
pub struct EthernetView {
    pub ipv4: Option<([u8; 4], [u8; 4])>,
    pub transport: TransportView,
}

impl View for EthernetSlices {
    type V = EthernetView;

    open spec fn view(&self) -> EthernetView {
        EthernetView { ipv4: self.ipv4, transport: self.transport@ }
    }
}

/// The plain value of an optional dissection.
pub open spec fn slices_view(s: Option<EthernetSlices>) -> Option<EthernetView> {
    match s {
        Some(e) => Some(e@),
        None => None,
    }
}

/// What `etherparse::SlicedPacket::from_ethernet` makes of a frame, taken to
/// plain values; `None` when it refuses the frame.
pub uninterp spec fn ethernet_slices(data: Seq<u8>) -> Option<EthernetView>;

/// Dissects a frame with `etherparse::SlicedPacket::from_ethernet` and keeps the
/// IPv4 addresses and the TCP/UDP/ICMPv4 transport. The contract ties the result
/// to the frame through the name `ethernet_slices`; etherparse's header rules
/// are not stated here.
#[verifier::external_body]
fn slice_ethernet(data: &[u8]) -> (res: Option<EthernetSlices>)
    ensures
        slices_view(res) == ethernet_slices(data@),
{
    let p = SlicedPacket::from_ethernet(data).ok()?;
    let ipv4 = match &p.net {
        Some(NetSlice::Ipv4(v)) => Some((v.header().source(), v.header().destination())),
        _ => None,
    };
    let transport = match &p.transport {
        Some(TransportSlice::Tcp(t)) => Transport::Tcp(t.source_port(), t.destination_port(), t.payload().to_vec()),
        Some(TransportSlice::Udp(u)) => Transport::Udp(u.source_port(), u.destination_port(), u.payload().to_vec()),
        Some(TransportSlice::Icmpv4(_)) => Transport::Icmpv4,
        _ => Transport::Other,
    };
    Some(EthernetSlices { ipv4, transport })
}

/// The transport protocols that the analysis records.
#[derive(PartialEq, Eq, Structural, Clone, Copy, Debug)]
pub enum Protocol {
    Tcp,
    Udp,
    Icmp,
}

/// The name of a protocol as it is stored.
pub open spec fn protocol_name(p: Protocol) -> Seq<char> {
    match p {
        Protocol::Tcp => seq!['T', 'C', 'P'],
        Protocol::Udp => seq!['U', 'D', 'P'],
        Protocol::Icmp => seq!['I', 'C', 'M', 'P'],
    }
}

impl Protocol {
    /// The name of the protocol as it is stored: "TCP", "UDP" or "ICMP".
    pub fn as_str(&self) -> (s: &'static str)
        ensures
            s@ == protocol_name(*self),
    {
        match self {
            Protocol::Tcp => {
                proof {
                    reveal_strlit("TCP");
                }
                "TCP"
            },
            Protocol::Udp => {
                proof {
                    reveal_strlit("UDP");
                }
                "UDP"
            },
            Protocol::Icmp => {
                proof {
                    reveal_strlit("ICMP");
                }
                "ICMP"
            },
        }
    }
}

/// The application protocol stored for a connection: "modbus" for Modbus TCP,
/// none otherwise.
pub fn app_protocol_name(modbus: bool) -> (s: Option<&'static str>)
    ensures
        modbus ==> (s matches Some(t) && t@ == seq!['m', 'o', 'd', 'b', 'u', 's']),
        !modbus ==> s is None,
{
    if modbus {
        proof {
            reveal_strlit("modbus");
        }
        Some("modbus")
    } else {
        None
    }
}

/// What the analysis keeps of one frame.
pub struct PacketSummary {
    pub src_mac: String,
    pub dst_mac: String,
    pub src_ip: [u8; 4],
    pub dst_ip: [u8; 4],
    pub src_port: u16,
    pub dst_port: u16,
    pub protocol: Protocol,
    /// Whether the TCP segment looks like Modbus TCP.
    pub modbus: bool,
}

/// The plain value of a [`PacketSummary`].
pub struct SummaryView {
    pub src_mac: Seq<char>,
    pub dst_mac: Seq<char>,
    pub src_ip: [u8; 4],
    pub dst_ip: [u8; 4],
    pub src_port: u16,
    pub dst_port: u16,
    pub protocol: Protocol,
    pub modbus: bool,
}

impl View for PacketSummary {
    type V = SummaryView;

    open spec fn view(&self) -> SummaryView {
        SummaryView {
            src_mac: self.src_mac@,
            dst_mac: self.dst_mac@,
            src_ip: self.src_ip,
            dst_ip: self.dst_ip,
            src_port: self.src_port,
            dst_port: self.dst_port,
            protocol: self.protocol,
            modbus: self.modbus,
        }
    }
}

/// The summary of a frame: `None` when etherparse refuses it, when it is
/// shorter than an Ethernet header (14 bytes), when the network layer is not
/// IPv4, or when the transport is neither TCP, UDP nor ICMPv4. MAC addresses
/// come from the Ethernet header (destination in bytes 0-6, source in 6-12);
/// ICMP has ports 0; only TCP is checked for Modbus.
pub open spec fn packet_summary(data: Seq<u8>) -> Option<SummaryView> {
    match ethernet_slices(data) {
        None => None,
        Some(e) => if data.len() < 14 {
            None
        } else {
            match e.ipv4 {
                None => None,
                Some((src_ip, dst_ip)) => {
                    let src_mac = mac_text(data.subrange(6, 12));
                    let dst_mac = mac_text(data.subrange(0, 6));
                    match e.transport {
                        TransportView::Tcp(sp, dp, payload) => Some(SummaryView {
                            src_mac, dst_mac, src_ip, dst_ip,
                            src_port: sp, dst_port: dp, protocol: Protocol::Tcp,
                            modbus: modbus_tcp_spec(sp, dp, payload),
                        }),
                        TransportView::Udp(sp, dp, _) => Some(SummaryView {
                            src_mac, dst_mac, src_ip, dst_ip,
                            src_port: sp, dst_port: dp, protocol: Protocol::Udp, modbus: false,
                        }),
                        TransportView::Icmpv4 => Some(SummaryView {
                            src_mac, dst_mac, src_ip, dst_ip,
                            src_port: 0, dst_port: 0, protocol: Protocol::Icmp, modbus: false,
                        }),
                        TransportView::Other => None,
                    }
                },
            }
        },
    }
}

/// A frame is kept exactly when etherparse dissects it, it holds a whole
/// Ethernet header, its network layer is IPv4 and its transport is TCP, UDP or
/// ICMPv4; in particular a frame with any other transport (IGMP, for one) is
/// skipped.
pub proof fn law_kept_frames(data: Seq<u8>)
    ensures
        packet_summary(data) is Some <==> {
            &&& data.len() >= 14
            &&& ethernet_slices(data) matches Some(e)
            &&& e.ipv4 is Some
            &&& !(e.transport is Other)
        },
        (ethernet_slices(data) matches Some(e) && e.transport is Other) ==> packet_summary(data) is None,
{
}

/// A summary carries what the dissector found: the IPv4 addresses of the
/// network layer, the MAC addresses of the Ethernet header (destination first
/// in the frame), and the protocol and ports of the transport: TCP and UDP with
/// their ports, ICMP (only for ICMPv4) with ports 0; only a TCP segment can be
/// Modbus, and it is when its ports and payload meet the Modbus criteria.
pub proof fn law_summary_fields(data: Seq<u8>)
    ensures
        packet_summary(data) matches Some(s) ==> {
            &&& ethernet_slices(data) matches Some(e)
            &&& e.ipv4 == Some((s.src_ip, s.dst_ip))
            &&& s.src_mac == mac_text(data.subrange(6, 12))
            &&& s.dst_mac == mac_text(data.subrange(0, 6))
            &&& (s.protocol == Protocol::Tcp <==> e.transport is Tcp)
            &&& (s.protocol == Protocol::Udp <==> e.transport is Udp)
            &&& (s.protocol == Protocol::Icmp <==> e.transport is Icmpv4)
            &&& (e.transport matches TransportView::Tcp(sp, dp, payload) ==> s.src_port == sp
                && s.dst_port == dp && s.modbus == modbus_tcp_spec(sp, dp, payload))
            &&& (e.transport matches TransportView::Udp(sp, dp, _) ==> s.src_port == sp
                && s.dst_port == dp && !s.modbus)
            &&& (e.transport is Icmpv4 ==> s.src_port == 0 && s.dst_port == 0 && !s.modbus)
        },
{
}

/// The plain value of an optional summary.
pub open spec fn summary_view(s: Option<PacketSummary>) -> Option<SummaryView> {
    match s {
        Some(x) => Some(x@),
        None => None,
    }
}

/// Dissects a frame into what the analysis keeps of it, or `None` when the
/// frame is skipped.
pub fn summarize_packet(data: &[u8]) -> (r: Option<PacketSummary>)
    ensures
        summary_view(r) == packet_summary(data@),
{
    let parsed = match slice_ethernet(data) {
        Some(p) => p,
        None => return None,
    };
    if data.len() < 14 {
        return None;
    }
    let (src_ip, dst_ip) = match parsed.ipv4 {
        Some(addrs) => addrs,
        None => return None,
    };
    let (src_port, dst_port, protocol, modbus) = match &parsed.transport {
        Transport::Tcp(sp, dp, payload) => (*sp, *dp, Protocol::Tcp, is_modbus_tcp(*sp, *dp, payload.as_slice())),
        Transport::Udp(sp, dp, _) => (*sp, *dp, Protocol::Udp, false),
        Transport::Icmpv4 => (0u16, 0u16, Protocol::Icmp, false),
        Transport::Other => return None,
    };
    let src_mac = format_mac(slice_range(data, 6, 12));
    let dst_mac = format_mac(slice_range(data, 0, 6));
    Some(PacketSummary { src_mac, dst_mac, src_ip, dst_ip, src_port, dst_port, protocol, modbus })
}

/// The bytes of `data` from `start` up to `end`.
fn slice_range(data: &[u8], start: usize, end: usize) -> (r: &[u8])
    requires
        start <= end <= data@.len(),
    ensures
        r@ == data@.subrange(start as int, end as int),
{
    vstd::slice::slice_subrange(data, start, end)
}

} // verus!
