//! ARP packets.
use vstd::prelude::*;

use crate::byteorder::{be_at, be_u32_at, be_value, lemma_be_at_four, lemma_be_at_two, lemma_be_value_bound, lemma_pow256_values, lemma_skip_subrange, read_be};
use crate::pcap::cursor::{parse_outcome, Cursor};

verus! {

pub struct ARPPacket<'a> {
    pub hw_type: HardwareType,
    pub protocol_type: EthType,
    pub hw_length: u8,
    pub protocol_length: u8,
    pub op: ARPOperation,
    pub sender_hw_addr: u64,
    pub sender_protocol_addr: u32,
    pub target_hw_addr: u64,
    pub target_protocol_addr: u32,
    pub payload: &'a [u8],
}

/// Hardware types: Ethernet is 1.
#[derive(Debug, Clone, Copy)]
pub enum HardwareType {
    Eth,
}

/// EtherTypes: IPv4 is 0x0800 and ARP 0x0806.
#[derive(Debug, Clone, Copy)]
pub enum EthType {
    IPv4,
    ARP,
}

/// Operations: a request is 1 and a reply 2.
#[derive(Debug, Clone, Copy)]
pub enum ARPOperation {
    Request,
    Reply,
}

/// The value of an [`ARPPacket`].
pub struct SpecARPPacket {
    pub hw_type: HardwareType,
    pub protocol_type: EthType,
    pub hw_length: u8,
    pub protocol_length: u8,
    pub op: ARPOperation,
    pub sender_hw_addr: u64,
    pub sender_protocol_addr: u32,
    pub target_hw_addr: u64,
    pub target_protocol_addr: u32,
    pub payload: Seq<u8>,
}

impl<'a> View for ARPPacket<'a> {
    type V = SpecARPPacket;

    open spec fn view(&self) -> SpecARPPacket {
        SpecARPPacket {
            hw_type: self.hw_type,
            protocol_type: self.protocol_type,
            hw_length: self.hw_length,
            protocol_length: self.protocol_length,
            op: self.op,
            sender_hw_addr: self.sender_hw_addr,
            sender_protocol_addr: self.sender_protocol_addr,
            target_hw_addr: self.target_hw_addr,
            target_protocol_addr: self.target_protocol_addr,
            payload: self.payload@,
        }
    }
}

pub open spec fn spec_hardware_type(n: int) -> Option<HardwareType> {
    if n == 1 {
        Some(HardwareType::Eth)
    } else {
        None
    }
}

pub open spec fn spec_eth_type(n: int) -> Option<EthType> {
    if n == 0x0800 {
        Some(EthType::IPv4)
    } else if n == 0x0806 {
        Some(EthType::ARP)
    } else {
        None
    }
}

pub open spec fn spec_arp_operation(n: int) -> Option<ARPOperation> {
    if n == 1 {
        Some(ARPOperation::Request)
    } else if n == 2 {
        Some(ARPOperation::Reply)
    } else {
        None
    }
}

/// A 28-byte packet of big-endian fields (6-byte hardware addresses, 4-byte protocol
/// addresses), then the payload: all the rest; only the 28 bytes count as read. The
/// packet has no value for another hardware type, protocol type or operation.
pub open spec fn spec_parse_arp(s: Seq<u8>) -> Option<(SpecARPPacket, nat)> {
    if s.len() < 28 {
        None
    } else {
        match (
            spec_hardware_type(be_at(s, 0, 2) as int),
            spec_eth_type(be_at(s, 2, 2) as int),
            spec_arp_operation(be_at(s, 6, 2) as int),
        ) {
            (Some(hw_type), Some(protocol_type), Some(op)) => Some(
                (
                    SpecARPPacket {
                        hw_type,
                        protocol_type,
                        hw_length: s[4],
                        protocol_length: s[5],
                        op,
                        sender_hw_addr: be_at(s, 8, 6) as u64,
                        sender_protocol_addr: be_u32_at(s, 14),
                        target_hw_addr: be_at(s, 18, 6) as u64,
                        target_protocol_addr: be_u32_at(s, 24),
                        payload: s.skip(28),
                    },
                    28,
                ),
            ),
            _ => None,
        }
    }
}

/// How a packet reads its fields: the hardware type (bytes 0-1) is Ethernet, 1; the
/// protocol type (bytes 2-3) IPv4 exactly when it is 0x0800 and ARP exactly when it is
/// 0x0806; the operation (bytes 6-7) a request exactly when it is 1 and a reply exactly
/// when it is 2. The lengths are bytes 4 and 5, the addresses follow big-endian (sender
/// hardware 8-13, sender protocol 14-17, target hardware 18-23, target protocol 24-27),
/// and the payload is all after byte 28.
pub proof fn lemma_arp_fields(s: Seq<u8>)
    requires
        spec_parse_arp(s) is Some,
    ensures
        ({
            let p = spec_parse_arp(s).unwrap().0;
            &&& s.len() >= 28
            &&& 256 * s[0] + s[1] == 1
            &&& (p.protocol_type is IPv4 <==> 256 * s[2] + s[3] == 0x0800)
            &&& (p.protocol_type is ARP <==> 256 * s[2] + s[3] == 0x0806)
            &&& (p.op is Request <==> 256 * s[6] + s[7] == 1)
            &&& (p.op is Reply <==> 256 * s[6] + s[7] == 2)
            &&& p.hw_length == s[4]
            &&& p.protocol_length == s[5]
            &&& p.payload == s.skip(28)
            &&& p.sender_hw_addr == be_value(s.subrange(8, 14))
            &&& p.sender_protocol_addr == 16777216 * s[14] + 65536 * s[15] + 256 * s[16] + s[17]
            &&& p.target_hw_addr == be_value(s.subrange(18, 24))
            &&& p.target_protocol_addr == 16777216 * s[24] + 65536 * s[25] + 256 * s[26] + s[27]
        }),
{
    lemma_be_at_two(s, 0);
    lemma_be_at_two(s, 2);
    lemma_be_at_two(s, 6);
    lemma_be_at_four(s, 14);
    lemma_be_at_four(s, 24);
    lemma_be_value_bound(s.subrange(8, 14));
    lemma_be_value_bound(s.subrange(18, 24));
    lemma_pow256_values();
}

/// A packet of another hardware type, protocol type or operation is refused.
pub proof fn lemma_arp_refused(s: Seq<u8>)
    requires
        s.len() >= 28,
        256 * s[0] + s[1] != 1 || !(256 * s[2] + s[3] == 0x0800 || 256 * s[2] + s[3] == 0x0806) || !(256
            * s[6] + s[7] == 1 || 256 * s[6] + s[7] == 2),
    ensures
        spec_parse_arp(s) is None,
{
    lemma_be_at_two(s, 0);
    lemma_be_at_two(s, 2);
    lemma_be_at_two(s, 6);
}

/// Reads a 6-byte hardware address as a big-endian number.
fn hardware_address(cur: &mut Cursor) -> (r: u64)
    requires
        old(cur).can_read(6),
        old(cur).in_bounds(),
    ensures
        final(cur).moved_from(*old(cur), 6),
        r == be_at(old(cur).rest(), 0, 6),
{
    proof {
        cur.lemma_data_len();
        broadcast use lemma_skip_subrange;
    }
    let v = read_be(cur.bytes(6).unwrap());
    proof {
        lemma_pow256_values();
    }
    v as u64
}

/// Reads an ARP packet; `None` exactly where `spec_parse_arp` has none.
pub(crate) fn try_parse_arp<'a>(cur: &mut Cursor<'a>) -> (r: Option<ARPPacket<'a>>)
    requires
        old(cur).in_bounds(),
    ensures
        parse_outcome(r, spec_parse_arp(old(cur).rest()), *old(cur), *final(cur)),
{
    proof {
        cur.lemma_data_len();
        broadcast use lemma_skip_subrange;
    }
    let ghost s = cur.rest();
    if cur.remaining().len() < 28 {
        return None;
    }
    let hardware_type_num = cur.u16_be().unwrap();
    let hardware_type = match hardware_type_num {
        1 => HardwareType::Eth,
        _ => return None,
    };

    let protocol_type_num = cur.u16_be().unwrap();
    let protocol_type = match protocol_type_num {
        0x0800 => EthType::IPv4,
        0x0806 => EthType::ARP,
        _ => return None,
    };

    let hw_length = cur.u8().unwrap();
    let protocol_length = cur.u8().unwrap();

    let operation_number = cur.u16_be().unwrap();
    let op = match operation_number {
        1 => ARPOperation::Request,
        2 => ARPOperation::Reply,
        _ => return None,
    };

    let sender_hw_addr = hardware_address(cur);
    let sender_protocol_addr = cur.u32_be().unwrap();
    let target_hw_addr = hardware_address(cur);
    let target_protocol_addr = cur.u32_be().unwrap();

    Some(
        ARPPacket {
            hw_type: hardware_type,
            protocol_type,
            hw_length,
            protocol_length,
            op,
            sender_hw_addr,
            sender_protocol_addr,
            target_hw_addr,
            target_protocol_addr,
            payload: cur.remaining(),
        },
    )
}

/// Reads an ARP packet; the bytes must hold one (see `spec_parse_arp`).
#[allow(dead_code)]
pub(crate) fn parse_arp<'a>(cur: &mut Cursor<'a>) -> (r: ARPPacket<'a>)
    requires
        old(cur).in_bounds(),
        spec_parse_arp(old(cur).rest()) is Some,
    ensures
        parse_outcome(Some(r), spec_parse_arp(old(cur).rest()), *old(cur), *final(cur)),
{
    try_parse_arp(cur).unwrap()
}

} // verus!
