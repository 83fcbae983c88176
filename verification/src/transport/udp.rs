//! UDP datagrams.
use vstd::prelude::*;

use crate::byteorder::{be_at, lemma_be_at_two, lemma_skip_subrange};
use crate::pcap::cursor::{parse_outcome, Cursor};

verus! {

pub struct UDPPacket<'a> {
    pub source: u16,
    pub dest: u16,
    pub length: u16,
    pub checksum: u16,
    pub payload: &'a [u8],
}

/// The value of a [`UDPPacket`], its payload taken as a sequence.
pub struct SpecUDPPacket {
    pub source: u16,
    pub dest: u16,
    pub length: u16,
    pub checksum: u16,
    pub payload: Seq<u8>,
}

impl<'a> View for UDPPacket<'a> {
    type V = SpecUDPPacket;

    open spec fn view(&self) -> SpecUDPPacket {
        SpecUDPPacket {
            source: self.source,
            dest: self.dest,
            length: self.length,
            checksum: self.checksum,
            payload: self.payload@,
        }
    }
}

/// An 8-byte header of four big-endian 16-bit fields, then the payload: all the rest.
/// Only the header counts as read.
pub open spec fn spec_parse_udp(s: Seq<u8>) -> Option<(SpecUDPPacket, nat)> {
    if s.len() < 8 {
        None
    } else {
        Some(
            (
                SpecUDPPacket {
                    source: be_at(s, 0, 2) as u16,
                    dest: be_at(s, 2, 2) as u16,
                    length: be_at(s, 4, 2) as u16,
                    checksum: be_at(s, 6, 2) as u16,
                    payload: s.skip(8),
                },
                8,
            ),
        )
    }
}

/// A datagram is read from its first eight bytes as four big-endian 16-bit fields, in
/// order source port, destination port, length, checksum; its payload is all the rest.
/// Eight bytes are enough for a datagram.
pub proof fn lemma_udp_fields(s: Seq<u8>)
    ensures
        spec_parse_udp(s) is Some <==> s.len() >= 8,
        spec_parse_udp(s) is Some ==> {
            let p = spec_parse_udp(s).unwrap().0;
            &&& p.source == 256 * s[0] + s[1]
            &&& p.dest == 256 * s[2] + s[3]
            &&& p.length == 256 * s[4] + s[5]
            &&& p.checksum == 256 * s[6] + s[7]
            &&& p.payload == s.skip(8)
        },
{
    if s.len() >= 8 {
        lemma_be_at_two(s, 0);
        lemma_be_at_two(s, 2);
        lemma_be_at_two(s, 4);
        lemma_be_at_two(s, 6);
    }
}

/// Reads a UDP datagram; `None` exactly where `spec_parse_udp` has none.
pub(crate) fn try_parse_udp<'a>(cur: &mut Cursor<'a>) -> (r: Option<UDPPacket<'a>>)
    requires
        old(cur).in_bounds(),
    ensures
        parse_outcome(r, spec_parse_udp(old(cur).rest()), *old(cur), *final(cur)),
{
    proof {
        cur.lemma_data_len();
        broadcast use lemma_skip_subrange;
    }
    if cur.remaining().len() < 8 {
        return None;
    }
    let source = cur.u16_be().unwrap();
    let dest = cur.u16_be().unwrap();
    let length = cur.u16_be().unwrap();
    let checksum = cur.u16_be().unwrap();
    let payload = cur.remaining();
    Some(UDPPacket { source, dest, length, checksum, payload })
}

/// Reads a UDP datagram; the bytes must hold one (see `spec_parse_udp`).
#[allow(dead_code)]
pub(crate) fn parse_udp<'a>(cur: &mut Cursor<'a>) -> (r: UDPPacket<'a>)
    requires
        old(cur).in_bounds(),
        spec_parse_udp(old(cur).rest()) is Some,
    ensures
        parse_outcome(Some(r), spec_parse_udp(old(cur).rest()), *old(cur), *final(cur)),
{
    try_parse_udp(cur).unwrap()
}

} // verus!
