//! Linux cooked-capture (SLL) frames.
use vstd::prelude::*;

use crate::byteorder::{
    be_at, be_u16_at, be_value, lemma_be_at_two, lemma_be_value_bound, lemma_be_value_split, lemma_pow256_is_pow2,
    lemma_pow256_monotone, lemma_pow256_values, lemma_skip_skip, lemma_skip_subrange, pow256,
};
use crate::layer::{lemma_network_packet_kind, parse_network_packet, spec_network_packet, LinuxSLLFrame, SpecLinuxSLLFrame};
use crate::pcap::cursor::{parse_outcome, Cursor};
use vstd::arithmetic::power2::pow2;

verus! {

/// The number of meaningful bytes of the 8-byte address field: the address length,
/// at most 8.
pub open spec fn addr_used_len(link_layer_addr_length: u16) -> int {
    if link_layer_addr_length < 8 {
        link_layer_addr_length as int
    } else {
        8
    }
}

/// Packet type, ARPHRD type (only 1, Ethernet, is parsed), address length, an 8-byte
/// address field padded with zeros (whose meaningful bytes are kept: it is shifted right
/// by the padding, and with no meaningful byte the address is 0), the protocol type,
/// then the network packet.
pub open spec fn spec_parse_sll(s: Seq<u8>) -> Option<(SpecLinuxSLLFrame, nat)> {
    if s.len() < 16 || be_at(s, 2, 2) != 1 {
        None
    } else {
        let used = addr_used_len(be_u16_at(s, 4));
        let addr = be_at(s, 6, 8);
        let link_layer_addr = if used == 0 {
            0
        } else if used < 8 {
            addr / pow2(((8 - used) * 8) as nat)
        } else {
            addr
        };
        match spec_network_packet(be_u16_at(s, 14), s.skip(16)) {
            None => None,
            Some((packet, n)) => Some(
                (
                    SpecLinuxSLLFrame {
                        packet_type: be_u16_at(s, 0),
                        arphrd_type: 1,
                        link_layer_addr_length: be_u16_at(s, 4),
                        link_layer_addr: link_layer_addr as u64,
                        protocol_type: be_u16_at(s, 14),
                        packet,
                    },
                    16 + n,
                ),
            ),
        }
    }
}

/// The shift keeps the meaningful bytes of the address field: the address is the
/// big-endian number that its first `addr_used_len` bytes encode (0 where there are none).
pub proof fn lemma_link_layer_addr_meaningful_bytes(s: Seq<u8>)
    requires
        spec_parse_sll(s) is Some,
    ensures
        spec_parse_sll(s).unwrap().0.link_layer_addr == be_value(
            s.subrange(6, 6 + addr_used_len(be_u16_at(s, 4))),
        ),
{
    let used = addr_used_len(be_u16_at(s, 4));
    let field = s.subrange(6, 14);
    lemma_be_value_split(field, used);
    lemma_be_value_bound(field);
    lemma_be_value_bound(field.skip(used));
    lemma_be_value_bound(field.take(used));
    lemma_pow256_values();
    assert(field.take(used) =~= s.subrange(6, 6 + used));
    if used == 0 {
        assert(field.take(0) =~= Seq::<u8>::empty());
    } else if used < 8 {
        lemma_pow256_is_pow2((8 - used) as nat);
        let q = be_value(field.take(used));
        let r = be_value(field.skip(used));
        let d = pow256((8 - used) as nat);
        assert(0 <= r < d);
        vstd::arithmetic::div_mod::lemma_fundamental_div_mod_converse(be_value(field) as int, d as int, q as int, r as int);
        assert(be_value(field) / d == q);
        lemma_pow256_monotone(0, used as nat);
        assert(q < pow256(8)) by {
            lemma_pow256_monotone(used as nat, 8);
        }
    } else {
        assert(field.take(8) =~= field);
    }
}

/// How a frame reads its header: the packet type is bytes 0-1, the ARPHRD type (bytes
/// 2-3) is Ethernet, 1, the address length is bytes 4-5 and the protocol type bytes
/// 14-15, all big-endian. Its packet is an IPv4 packet exactly for protocol type 0x0800,
/// an IPv6 packet exactly for 0x86DD and an ARP packet exactly for 0x0806.
pub proof fn lemma_sll_fields(s: Seq<u8>)
    requires
        spec_parse_sll(s) is Some,
    ensures
        ({
            let f = spec_parse_sll(s).unwrap().0;
            let protocol = 256 * s[14] + s[15];
            &&& s.len() >= 16
            &&& 256 * s[2] + s[3] == 1
            &&& f.packet_type == 256 * s[0] + s[1]
            &&& f.link_layer_addr_length == 256 * s[4] + s[5]
            &&& f.protocol_type == protocol
            &&& (f.packet is IPv4 <==> protocol == 0x0800)
            &&& (f.packet is IPv6 <==> protocol == 0x86DD)
            &&& (f.packet is ARP <==> protocol == 0x0806)
        }),
{
    lemma_be_at_two(s, 0);
    lemma_be_at_two(s, 2);
    lemma_be_at_two(s, 4);
    lemma_be_at_two(s, 14);
    lemma_network_packet_kind(be_u16_at(s, 14), s.skip(16));
    let f = spec_parse_sll(s).unwrap().0;
    assert(f.packet == spec_network_packet(be_u16_at(s, 14), s.skip(16)).unwrap().0);
    assert(f.packet_type == be_u16_at(s, 0) && f.link_layer_addr_length == be_u16_at(s, 4)
        && f.protocol_type == be_u16_at(s, 14));
}

/// Reads a Linux cooked-capture frame; `None` exactly where `spec_parse_sll` has none.
pub(crate) fn try_parse_sll<'a>(cur: &mut Cursor<'a>) -> (r: Option<LinuxSLLFrame<'a>>)
    requires
        old(cur).in_bounds(),
    ensures
        parse_outcome(r, spec_parse_sll(old(cur).rest()), *old(cur), *final(cur)),
{
    proof {
        cur.lemma_data_len();
        broadcast use lemma_skip_subrange, lemma_skip_skip;
    }
    let ghost s = cur.rest();
    if cur.remaining().len() < 16 {
        return None;
    }
    let packet_type = cur.u16_be().unwrap();
    // See include/uapi/linux/if_arp.h in the Linux sources.
    let arphrd_type = cur.u16_be().unwrap();
    if arphrd_type != 1 {
        return None;
    }
    let link_layer_addr_length = cur.u16_be().unwrap();

    // The address field is always 8 bytes, padded with zeros;
    // link_layer_addr_length says how many of them are meaningful.
    let addr_used_len: u64 = if link_layer_addr_length < 8 { link_layer_addr_length as u64 } else { 8 };
    let mut link_layer_addr = cur.u64_be().unwrap();
    proof {
        lemma_pow256_values();
    }

    if addr_used_len == 0 {
        link_layer_addr = 0;
    } else if addr_used_len < 8 {
        proof {
            vstd::bits::lemma_u64_shr_is_div(link_layer_addr, ((8 - addr_used_len) * 8) as u64);
        }
        link_layer_addr = link_layer_addr >> ((8 - addr_used_len) * 8);
    }

    let protocol_type = cur.u16_be().unwrap();

    let packet = match parse_network_packet(protocol_type, cur) {
        Some(p) => p,
        None => return None,
    };

    Some(
        LinuxSLLFrame {
            packet_type,
            arphrd_type,
            link_layer_addr_length,
            link_layer_addr,
            protocol_type,
            packet,
        },
    )
}

/// Reads a Linux cooked-capture frame; the bytes must hold one (see `spec_parse_sll`).
pub(crate) fn parse_sll<'a>(cur: &mut Cursor<'a>) -> (r: LinuxSLLFrame<'a>)
    requires
        old(cur).in_bounds(),
        spec_parse_sll(old(cur).rest()) is Some,
    ensures
        parse_outcome(Some(r), spec_parse_sll(old(cur).rest()), *old(cur), *final(cur)),
{
    try_parse_sll(cur).unwrap()
}

} // verus!
