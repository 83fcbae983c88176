//! Ethernet frames.
use vstd::prelude::*;

use crate::byteorder::{be_at, lemma_be_at_two, lemma_skip_skip, lemma_skip_subrange};
use crate::layer::{lemma_network_packet_kind, parse_network_packet, spec_network_packet, EthernetFrame, NetworkPacket, SpecEthernetFrame, SpecNetworkPacket};
use crate::pcap::cursor::{parse_outcome, Cursor};

verus! {

/// Destination and source addresses, a big-endian EtherType, then the network packet.
/// Only EtherTypes above 1536 are parsed, VLAN tags (0x8100, 0x88a8) are not, and of
/// the others IPv4, IPv6, ARP, and flow control (0x8808, or 0x3e43, both reported as
/// 0x8808, whose data is all the rest and does not count as read).
pub open spec fn spec_parse_ethernet(s: Seq<u8>) -> Option<(SpecEthernetFrame, nat)> {
    if s.len() < 14 {
        None
    } else {
        let tpid = be_at(s, 12, 2);
        let packet = if tpid == 0x8100 || tpid == 0x88a8 || tpid <= 1536 {
            None
        } else if tpid == 0x8808 || tpid == 0x3e43 {
            Some((SpecNetworkPacket::Unknown { ethertype: 0x8808, data: s.skip(14) }, 0nat))
        } else {
            spec_network_packet(tpid as u16, s.skip(14))
        };
        match packet {
            None => None,
            Some((p, n)) => Some(
                (
                    SpecEthernetFrame {
                        mac_dest: s.subrange(0, 6),
                        mac_source: s.subrange(6, 12),
                        tag: None,
                        packet: p,
                    },
                    14 + n,
                ),
            ),
        }
    }
}

/// How a frame reads its header: the destination address is bytes 0-5 and the source
/// bytes 6-11; the EtherType is bytes 12-13, big-endian. Its packet is an IPv4 packet
/// exactly for 0x0800, an IPv6 packet exactly for 0x86DD, an ARP packet exactly for
/// 0x0806, and flow control, reported as 0x8808 with all the rest as its data, exactly for
/// 0x8808 and 0x3e43.
pub proof fn lemma_ethernet_fields(s: Seq<u8>)
    requires
        spec_parse_ethernet(s) is Some,
    ensures
        ({
            let f = spec_parse_ethernet(s).unwrap().0;
            let ethertype = 256 * s[12] + s[13];
            &&& s.len() >= 14
            &&& f.mac_dest == s.subrange(0, 6)
            &&& f.mac_source == s.subrange(6, 12)
            &&& (f.packet is IPv4 <==> ethertype == 0x0800)
            &&& (f.packet is IPv6 <==> ethertype == 0x86DD)
            &&& (f.packet is ARP <==> ethertype == 0x0806)
            &&& (f.packet is Unknown <==> ethertype == 0x8808 || ethertype == 0x3e43)
            &&& (f.packet is Unknown ==> f.packet == SpecNetworkPacket::Unknown {
                ethertype: 0x8808,
                data: s.skip(14),
            })
        }),
{
    lemma_be_at_two(s, 12);
    let ethertype = be_at(s, 12, 2);
    if !(ethertype == 0x8100 || ethertype == 0x88a8 || ethertype <= 1536 || ethertype == 0x8808 || ethertype == 0x3e43) {
        lemma_network_packet_kind(ethertype as u16, s.skip(14));
    }
}

/// A frame tagged for a VLAN (EtherType 0x8100 or 0x88a8), or whose EtherType field is a
/// length (1536 or less), is refused.
pub proof fn lemma_ethernet_refused(s: Seq<u8>)
    requires
        s.len() >= 14,
        ({
            let ethertype = 256 * s[12] + s[13];
            ethertype == 0x8100 || ethertype == 0x88a8 || ethertype <= 1536
        }),
    ensures
        spec_parse_ethernet(s) is None,
{
    lemma_be_at_two(s, 12);
}

/// The six bytes of a MAC address.
fn mac_address(b: &[u8]) -> (r: [u8; 6])
    requires
        b@.len() == 6,
    ensures
        r@ == b@,
{
    let r = [b[0], b[1], b[2], b[3], b[4], b[5]];
    assert(r@ =~= b@);
    r
}

/// Reads an Ethernet frame; `None` exactly where `spec_parse_ethernet` has none.
pub(crate) fn try_parse_ethernet<'a>(cur: &mut Cursor<'a>) -> (r: Option<EthernetFrame<'a>>)
    requires
        old(cur).in_bounds(),
    ensures
        parse_outcome(r, spec_parse_ethernet(old(cur).rest()), *old(cur), *final(cur)),
{
    proof {
        cur.lemma_data_len();
        broadcast use lemma_skip_subrange, lemma_skip_skip;
    }
    let ghost s = cur.rest();
    if cur.remaining().len() < 14 {
        return None;
    }
    let dest = cur.bytes(6).unwrap();
    let source = cur.bytes(6).unwrap();
    // 802.1Q uses a TPID of 0x8100, 802.1ad one of 0x88a8.
    let tpid = cur.u16_be().unwrap();
    if tpid == 0x8100 || tpid == 0x88a8 {
        return None;
    }
    // Up to 1500 the field is a payload length, from 1536 on an EtherType.
    if tpid <= 1536 {
        return None;
    }
    let packet = if tpid == 0x8808 || tpid == 0x3e43 {
        NetworkPacket::Unknown { ethertype: 0x8808, data: cur.remaining() }
    } else {
        match parse_network_packet(tpid, cur) {
            Some(p) => p,
            None => return None,
        }
    };

    Some(
        EthernetFrame {
            mac_dest: mac_address(dest),
            mac_source: mac_address(source),
            tag: None,
            packet,
        },
    )
}

/// Reads an Ethernet frame; the bytes must hold one (see `spec_parse_ethernet`).
pub(crate) fn parse_ethernet<'a>(cur: &mut Cursor<'a>) -> (r: EthernetFrame<'a>)
    requires
        old(cur).in_bounds(),
        spec_parse_ethernet(old(cur).rest()) is Some,
    ensures
        parse_outcome(Some(r), spec_parse_ethernet(old(cur).rest()), *old(cur), *final(cur)),
{
    try_parse_ethernet(cur).unwrap()
}

} // verus!
