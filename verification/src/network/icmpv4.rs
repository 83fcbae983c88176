//! ICMP messages.
use vstd::prelude::*;

use crate::byteorder::{be_u16_at, be_u32_at, lemma_be_at_four, lemma_be_at_two, lemma_skip_subrange};
use crate::network::icmpv4_types::{describe, spec_describe};
use crate::pcap::cursor::{parse_outcome, Cursor};

verus! {

pub struct ICMP {
    pub icmp_type: u8,
    pub code: u8,
    pub checksum: u16,
    pub rest: u32,
}

impl View for ICMP {
    type V = ICMP;

    open spec fn view(&self) -> ICMP {
        *self
    }
}

impl ICMP {
    /// The description of the message's type and code.
    pub fn to_string(&self) -> (r: String)
        ensures
            r@ == spec_describe(self.icmp_type, self.code),
    {
        describe(self.icmp_type, self.code)
    }
}

/// Type and code bytes, then a big-endian 16-bit checksum and the 32-bit rest of the header.
pub open spec fn spec_parse_icmpv4(s: Seq<u8>) -> Option<(ICMP, nat)> {
    if s.len() < 8 {
        None
    } else {
        Some(
            (
                ICMP {
                    icmp_type: s[0],
                    code: s[1],
                    checksum: be_u16_at(s, 2),
                    rest: be_u32_at(s, 4),
                },
                8,
            ),
        )
    }
}

/// A message is read from its first eight bytes: the type is byte 0, the code byte 1,
/// the checksum bytes 2-3 and the rest of the header bytes 4-7, big-endian. Eight bytes
/// are enough for a message.
pub proof fn lemma_message_fields(s: Seq<u8>)
    ensures
        spec_parse_icmpv4(s) is Some <==> s.len() >= 8,
        spec_parse_icmpv4(s) is Some ==> {
            let m = spec_parse_icmpv4(s).unwrap().0;
            &&& m.icmp_type == s[0]
            &&& m.code == s[1]
            &&& m.checksum == 256 * s[2] + s[3]
            &&& m.rest == 16777216 * s[4] + 65536 * s[5] + 256 * s[6] + s[7]
        },
{
    if s.len() >= 8 {
        lemma_be_at_two(s, 2);
        lemma_be_at_four(s, 4);
    }
}

/// Reads an ICMP message; `None` exactly where `spec_parse_icmpv4` has none.
pub(crate) fn try_parse_icmpv4(cur: &mut Cursor) -> (r: Option<ICMP>)
    requires
        old(cur).in_bounds(),
    ensures
        parse_outcome(r, spec_parse_icmpv4(old(cur).rest()), *old(cur), *final(cur)),
{
    proof {
        cur.lemma_data_len();
        broadcast use lemma_skip_subrange;
    }
    if cur.remaining().len() < 8 {
        return None;
    }
    let icmp_type = cur.u8().unwrap();
    let code = cur.u8().unwrap();
    let checksum = cur.u16_be().unwrap();
    let rest = cur.u32_be().unwrap();
    Some(ICMP { icmp_type, code, checksum, rest })
}

/// Reads an ICMP message; the bytes must hold one (see `spec_parse_icmpv4`).
#[allow(dead_code)]
pub(crate) fn parse_icmpv4(cur: &mut Cursor) -> (r: ICMP)
    requires
        old(cur).in_bounds(),
        spec_parse_icmpv4(old(cur).rest()) is Some,
    ensures
        parse_outcome(Some(r), spec_parse_icmpv4(old(cur).rest()), *old(cur), *final(cur)),
{
    try_parse_icmpv4(cur).unwrap()
}

} // verus!
