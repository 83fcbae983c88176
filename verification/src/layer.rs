//! The layers of a captured frame: link, network and transport, and the entry points
//! that parse a capture file and the frames of its packets.
use vstd::prelude::*;

use crate::network::icmpv4::spec_parse_icmpv4;
use crate::network::icmpv6::spec_parse_icmpv6;
use crate::network::igmp::{spec_parse_igmp, SpecIGMP, IGMP};
use crate::link::arp::{try_parse_arp, spec_parse_arp, SpecARPPacket};
use crate::link::ARPPacket;
use crate::network::ipv4::{try_parse_ipv4, spec_parse_ipv4, SpecIPv4Packet};
use crate::network::ipv6::{try_parse_ipv6, spec_parse_ipv6, SpecIPv6Packet};
use crate::network::{ICMPv6, IPv4Packet, IPv6Packet, ICMP};
use crate::link::ethernet::{parse_ethernet, spec_parse_ethernet, try_parse_ethernet};
use crate::link::linux_sll::{parse_sll, spec_parse_sll, try_parse_sll};
use crate::pcap::cursor::{parse_outcome, Cursor};
use crate::pcap::header::{parse_header, spec_parse_header, try_parse_header, Header};
use crate::pcap::record::{Packet, PacketIter};
use crate::transport::tcp::{spec_parse_tcp, SpecTCPPacket};
use crate::transport::udp::{spec_parse_udp, SpecUDPPacket};
use crate::transport::{TCPPacket, UDPPacket};

verus! {

pub struct LinuxSLLFrame<'a> {
    pub packet_type: u16,
    pub arphrd_type: u16,
    pub link_layer_addr_length: u16,
    pub link_layer_addr: u64,
    pub protocol_type: u16,
    pub packet: NetworkPacket<'a>,
}

pub struct EthernetFrame<'a> {
    pub mac_dest: [u8; 6],
    pub mac_source: [u8; 6],
    pub tag: Option<u32>,
    pub packet: NetworkPacket<'a>,
}

pub enum Frame<'a> {
    Ethernet(EthernetFrame<'a>),
    SLL(LinuxSLLFrame<'a>),
}

impl<'a> Frame<'a> {
    /// The network packet that the frame carries.
    pub fn packet(&self) -> (r: &NetworkPacket<'a>)
        ensures
            r@ == self@.packet(),
    {
        match self {
            Frame::Ethernet(frame) => &frame.packet,
            Frame::SLL(frame) => &frame.packet,
        }
    }

    /// The network packet that the frame carries, taken out of it.
    pub fn into_packet(self) -> (r: NetworkPacket<'a>)
        ensures
            r@ == self@.packet(),
    {
        match self {
            Frame::Ethernet(frame) => frame.packet,
            Frame::SLL(frame) => frame.packet,
        }
    }
}

pub enum NetworkPacket<'a> {
    IPv4(IPv4Packet<'a>),
    IPv6(IPv6Packet<'a>),
    ARP(ARPPacket<'a>),
    Unknown { ethertype: u16, data: &'a [u8] },
}

/// The value of a [`LinuxSLLFrame`].
pub struct SpecLinuxSLLFrame {
    pub packet_type: u16,
    pub arphrd_type: u16,
    pub link_layer_addr_length: u16,
    pub link_layer_addr: u64,
    pub protocol_type: u16,
    pub packet: SpecNetworkPacket,
}

/// The value of an [`EthernetFrame`], its addresses taken as sequences.
pub struct SpecEthernetFrame {
    pub mac_dest: Seq<u8>,
    pub mac_source: Seq<u8>,
    pub tag: Option<u32>,
    pub packet: SpecNetworkPacket,
}

/// The value of a [`Frame`].
pub enum SpecFrame {
    Ethernet(SpecEthernetFrame),
    SLL(SpecLinuxSLLFrame),
}

impl SpecFrame {
    /// The network packet that the frame carries.
    pub open spec fn packet(self) -> SpecNetworkPacket {
        match self {
            SpecFrame::Ethernet(f) => f.packet,
            SpecFrame::SLL(f) => f.packet,
        }
    }
}

/// The value of a [`NetworkPacket`].
pub enum SpecNetworkPacket {
    IPv4(SpecIPv4Packet),
    IPv6(SpecIPv6Packet),
    ARP(SpecARPPacket),
    Unknown { ethertype: u16, data: Seq<u8> },
}

impl<'a> View for LinuxSLLFrame<'a> {
    type V = SpecLinuxSLLFrame;

    open spec fn view(&self) -> SpecLinuxSLLFrame {
        SpecLinuxSLLFrame {
            packet_type: self.packet_type,
            arphrd_type: self.arphrd_type,
            link_layer_addr_length: self.link_layer_addr_length,
            link_layer_addr: self.link_layer_addr,
            protocol_type: self.protocol_type,
            packet: self.packet@,
        }
    }
}

impl<'a> View for EthernetFrame<'a> {
    type V = SpecEthernetFrame;

    open spec fn view(&self) -> SpecEthernetFrame {
        SpecEthernetFrame {
            mac_dest: self.mac_dest@,
            mac_source: self.mac_source@,
            tag: self.tag,
            packet: self.packet@,
        }
    }
}

impl<'a> View for Frame<'a> {
    type V = SpecFrame;

    open spec fn view(&self) -> SpecFrame {
        match self {
            Frame::Ethernet(f) => SpecFrame::Ethernet(f@),
            Frame::SLL(f) => SpecFrame::SLL(f@),
        }
    }
}

impl<'a> View for NetworkPacket<'a> {
    type V = SpecNetworkPacket;

    open spec fn view(&self) -> SpecNetworkPacket {
        match self {
            NetworkPacket::IPv4(p) => SpecNetworkPacket::IPv4(p@),
            NetworkPacket::IPv6(p) => SpecNetworkPacket::IPv6(p@),
            NetworkPacket::ARP(p) => SpecNetworkPacket::ARP(p@),
            NetworkPacket::Unknown { ethertype, data } => SpecNetworkPacket::Unknown {
                ethertype: *ethertype,
                data: data@,
            },
        }
    }
}

/// The network packet of EtherType `ethertype` that `s` starts with, and the number of
/// bytes it takes: IPv4 (0x0800), IPv6 (0x86DD) and ARP (0x0806) are parsed.
pub open spec fn spec_network_packet(ethertype: u16, s: Seq<u8>) -> Option<(SpecNetworkPacket, nat)> {
    if ethertype == 0x0800 {
        match spec_parse_ipv4(s) {
            Some((p, n)) => Some((SpecNetworkPacket::IPv4(p), n)),
            None => None,
        }
    } else if ethertype == 0x86DD {
        match spec_parse_ipv6(s) {
            Some((p, n)) => Some((SpecNetworkPacket::IPv6(p), n)),
            None => None,
        }
    } else if ethertype == 0x0806 {
        match spec_parse_arp(s) {
            Some((p, n)) => Some((SpecNetworkPacket::ARP(p), n)),
            None => None,
        }
    } else {
        None
    }
}

/// The kind of network packet follows the EtherType: an IPv4 packet exactly for 0x0800,
/// an IPv6 packet exactly for 0x86DD and an ARP packet exactly for 0x0806; no other
/// EtherType gives a packet here.
pub proof fn lemma_network_packet_kind(ethertype: u16, s: Seq<u8>)
    ensures
        spec_network_packet(ethertype, s) is Some ==> {
            let p = spec_network_packet(ethertype, s).unwrap().0;
            &&& (p is IPv4 <==> ethertype == 0x0800)
            &&& (p is IPv6 <==> ethertype == 0x86DD)
            &&& (p is ARP <==> ethertype == 0x0806)
            &&& !(p is Unknown)
        },
        !(ethertype == 0x0800 || ethertype == 0x86DD || ethertype == 0x0806) ==> spec_network_packet(ethertype, s)
            is None,
{
}

/// Parses the network packet of EtherType `ethertype` (see `spec_network_packet`).
pub(crate) fn parse_network_packet<'a>(ethertype: u16, cur: &mut Cursor<'a>) -> (r: Option<NetworkPacket<'a>>)
    requires
        old(cur).in_bounds(),
    ensures
        parse_outcome(r, spec_network_packet(ethertype, old(cur).rest()), *old(cur), *final(cur)),
{
    match ethertype {
        0x0800 => match try_parse_ipv4(cur) {
            Some(p) => Some(NetworkPacket::IPv4(p)),
            None => None,
        },
        0x86DD => match try_parse_ipv6(cur) {
            Some(p) => Some(NetworkPacket::IPv6(p)),
            None => None,
        },
        0x0806 => match try_parse_arp(cur) {
            Some(p) => Some(NetworkPacket::ARP(p)),
            None => None,
        },
        _ => None,
    }
}

pub enum TransportPacket<'a> {
    TCP(TCPPacket<'a>),
    UDP(UDPPacket<'a>),
    ICMP(ICMP),
    ICMPv6(ICMPv6),
    IGMP(IGMP<'a>),
}

/// The value of a [`TransportPacket`].
pub enum SpecTransportPacket {
    TCP(SpecTCPPacket),
    UDP(SpecUDPPacket),
    ICMP(ICMP),
    ICMPv6(ICMPv6),
    IGMP(SpecIGMP),
}

impl<'a> View for TransportPacket<'a> {
    type V = SpecTransportPacket;

    open spec fn view(&self) -> SpecTransportPacket {
        match self {
            TransportPacket::TCP(p) => SpecTransportPacket::TCP(p@),
            TransportPacket::UDP(p) => SpecTransportPacket::UDP(p@),
            TransportPacket::ICMP(p) => SpecTransportPacket::ICMP(p@),
            TransportPacket::ICMPv6(p) => SpecTransportPacket::ICMPv6(p@),
            TransportPacket::IGMP(p) => SpecTransportPacket::IGMP(p@),
        }
    }
}

/// The TCP segment that `s` starts with.
pub open spec fn spec_transport_tcp(s: Seq<u8>) -> Option<SpecTransportPacket> {
    match spec_parse_tcp(s) {
        Some((p, _)) => Some(SpecTransportPacket::TCP(p)),
        None => None,
    }
}

/// The UDP datagram that `s` starts with.
pub open spec fn spec_transport_udp(s: Seq<u8>) -> Option<SpecTransportPacket> {
    match spec_parse_udp(s) {
        Some((p, _)) => Some(SpecTransportPacket::UDP(p)),
        None => None,
    }
}

/// The ICMP message that `s` starts with.
pub open spec fn spec_transport_icmpv4(s: Seq<u8>) -> Option<SpecTransportPacket> {
    match spec_parse_icmpv4(s) {
        Some((p, _)) => Some(SpecTransportPacket::ICMP(p)),
        None => None,
    }
}

/// The ICMPv6 message that `s` starts with.
pub open spec fn spec_transport_icmpv6(s: Seq<u8>) -> Option<SpecTransportPacket> {
    match spec_parse_icmpv6(s) {
        Some((p, _)) => Some(SpecTransportPacket::ICMPv6(p)),
        None => None,
    }
}

/// The IGMP message that `s` starts with.
pub open spec fn spec_transport_igmp(s: Seq<u8>) -> Option<SpecTransportPacket> {
    match spec_parse_igmp(s) {
        Some((p, _)) => Some(SpecTransportPacket::IGMP(p)),
        None => None,
    }
}

/// The iterator that `parse_pcap` gives for `data`, whose header is `header`: it reads
/// the bytes after the 24-byte header, in the header's byte order and timestamp unit.
pub open spec fn reads_records_of<'a>(it: PacketIter<'a>, data: Seq<u8>, header: Header) -> bool {
    &&& it.cursor().data() == data
    &&& it.cursor().position() == 24
    &&& it.cursor().byte_order() == header.endian
    &&& it.unit() == header.tsec.unwrap()
    &&& it.ready()
}

/// Reads the global header of a capture file, and returns it with an iterator over the
/// packet records that follow it; `None` where the header is not valid.
pub fn try_parse_pcap<'a>(data: &'a [u8]) -> (r: Option<(Header, PacketIter<'a>)>)
    ensures
        match spec_parse_header(data@) {
            None => r is None,
            Some(h) => r matches Some((header, it)) && header == h && reads_records_of(it, data@, h),
        },
{
    let mut cur = Cursor::new(data);
    proof {
        assert(cur.rest() =~= data@);
    }
    let header = match try_parse_header(&mut cur) {
        Some(h) => h,
        None => return None,
    };
    let tsec = match header.tsec {
        Some(tsec) => tsec,
        None => return None,
    };
    let packets = PacketIter::new(cur, tsec);
    Some((header, packets))
}

/// Reads the global header of a capture file, which must be valid, and returns it with
/// an iterator over the packet records that follow it.
pub fn parse_pcap<'a>(data: &'a [u8]) -> (r: (Header, PacketIter<'a>))
    requires
        spec_parse_header(data@) is Some,
    ensures
        r.0 == spec_parse_header(data@).unwrap(),
        reads_records_of(r.1, data@, r.0),
{
    let mut cur = Cursor::new(data);
    proof {
        assert(cur.rest() =~= data@);
    }
    let header = parse_header(&mut cur);
    let tsec = header.tsec.unwrap();
    let packets = PacketIter::new(cur, tsec);
    (header, packets)
}

/// The frame that the bytes `s` of a packet hold, for link type `link_type`: 1 is
/// Ethernet and 113 Linux cooked capture; others are not parsed.
pub open spec fn spec_parse_frame(link_type: u16, s: Seq<u8>) -> Option<SpecFrame> {
    if link_type == 1 {
        match spec_parse_ethernet(s) {
            Some((f, _)) => Some(SpecFrame::Ethernet(f)),
            None => None,
        }
    } else if link_type == 113 {
        match spec_parse_sll(s) {
            Some((f, _)) => Some(SpecFrame::SLL(f)),
            None => None,
        }
    } else {
        None
    }
}

/// The kind of frame follows the link type: an Ethernet frame exactly for link type 1,
/// a Linux cooked-capture frame exactly for 113; no other link type gives a frame.
pub proof fn lemma_frame_kind(link_type: u16, s: Seq<u8>)
    ensures
        spec_parse_frame(link_type, s) is Some ==> {
            let f = spec_parse_frame(link_type, s).unwrap();
            &&& (f is Ethernet <==> link_type == 1)
            &&& (f is SLL <==> link_type == 113)
        },
        !(link_type == 1 || link_type == 113) ==> spec_parse_frame(link_type, s) is None,
{
}

/// Parses the frame that a packet's payload holds, by the header's link type;
/// `None` where it holds none that this library parses.
pub fn try_parse_packet<'a>(header: &Header, packet: Packet<'a>) -> (r: Option<Frame<'a>>)
    ensures
        match spec_parse_frame(header.link_type, packet.payload@) {
            None => r is None,
            Some(f) => r matches Some(frame) && frame@ == f,
        },
{
    let mut cur = Cursor::new(packet.payload);
    proof {
        assert(cur.rest() =~= packet.payload@);
    }
    match header.link_type {
        1 => match try_parse_ethernet(&mut cur) {
            Some(f) => Some(Frame::Ethernet(f)),
            None => None,
        },
        113 => match try_parse_sll(&mut cur) {
            Some(f) => Some(Frame::SLL(f)),
            None => None,
        },
        _ => None,
    }
}

/// Parses the frame that a packet's payload holds, by the header's link type; the
/// payload must hold one that this library parses.
pub fn parse_packet<'a>(header: &Header, packet: Packet<'a>) -> (r: Frame<'a>)
    requires
        spec_parse_frame(header.link_type, packet.payload@) is Some,
    ensures
        r@ == spec_parse_frame(header.link_type, packet.payload@).unwrap(),
{
    let mut cur = Cursor::new(packet.payload);
    proof {
        assert(cur.rest() =~= packet.payload@);
    }
    if header.link_type == 1 {
        Frame::Ethernet(parse_ethernet(&mut cur))
    } else {
        Frame::SLL(parse_sll(&mut cur))
    }
}

} // verus!
