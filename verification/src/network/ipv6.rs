//! IPv6 packets and their extension headers.
use vstd::prelude::*;

use crate::byteorder::{
    be_at, be_u16_at, be_u32_at, be_value, lemma_be_at_four, lemma_be_at_two, lemma_be_value_bound, lemma_pow256_values,
    lemma_skip_skip, lemma_skip_subrange,
};
use crate::layer::{spec_transport_icmpv6, spec_transport_tcp, spec_transport_udp, SpecTransportPacket, TransportPacket};
use crate::network::icmpv6::try_parse_icmpv6;
use crate::pcap::cursor::{parse_outcome, Cursor};
use crate::transport::tcp::try_parse_tcp;
use crate::transport::udp::try_parse_udp;

verus! {

pub struct IPv6PacketHeader {
    pub version: u8,
    pub traffic_class: u8,
    pub flow_label: u32,
    pub payload_len: u16,
    pub next_header: u8,
    pub hop_limit: u8,
    pub source: u128,
    pub dest: u128,
}

impl View for IPv6PacketHeader {
    type V = IPv6PacketHeader;

    open spec fn view(&self) -> IPv6PacketHeader {
        *self
    }
}

pub enum ExtensionHeader<'a> {
    HopByHopOptions { next_header: u8, data: &'a [u8] },
    DestOptions { next_header: u8, data: &'a [u8] },
    RoutingHeader { next_header: u8, data: &'a [u8] },
    FragmentHeader { next_header: u8, fragment_offset: u16, more_fragments: bool, identification: u32 },
    AuthHeader { next_header: u8, data: &'a [u8] },
    MobilityHeader { next_header: u8, data: &'a [u8] },
}

pub struct IPv6Packet<'a> {
    pub header: IPv6PacketHeader,
    pub extension_headers: Vec<ExtensionHeader<'a>>,
    pub payload: TransportPacket<'a>,
}

/// The value of an [`ExtensionHeader`].
pub enum SpecExtensionHeader {
    HopByHopOptions { next_header: u8, data: Seq<u8> },
    DestOptions { next_header: u8, data: Seq<u8> },
    RoutingHeader { next_header: u8, data: Seq<u8> },
    FragmentHeader { next_header: u8, fragment_offset: u16, more_fragments: bool, identification: u32 },
    AuthHeader { next_header: u8, data: Seq<u8> },
    MobilityHeader { next_header: u8, data: Seq<u8> },
}

/// The value of an [`IPv6Packet`].
pub struct SpecIPv6Packet {
    pub header: IPv6PacketHeader,
    pub extension_headers: Seq<SpecExtensionHeader>,
    pub payload: SpecTransportPacket,
}

impl<'a> View for ExtensionHeader<'a> {
    type V = SpecExtensionHeader;

    open spec fn view(&self) -> SpecExtensionHeader {
        match self {
            ExtensionHeader::HopByHopOptions { next_header, data } => SpecExtensionHeader::HopByHopOptions {
                next_header: *next_header,
                data: data@,
            },
            ExtensionHeader::DestOptions { next_header, data } => SpecExtensionHeader::DestOptions {
                next_header: *next_header,
                data: data@,
            },
            ExtensionHeader::RoutingHeader { next_header, data } => SpecExtensionHeader::RoutingHeader {
                next_header: *next_header,
                data: data@,
            },
            ExtensionHeader::FragmentHeader { next_header, fragment_offset, more_fragments, identification } =>
                SpecExtensionHeader::FragmentHeader {
                    next_header: *next_header,
                    fragment_offset: *fragment_offset,
                    more_fragments: *more_fragments,
                    identification: *identification,
                },
            ExtensionHeader::AuthHeader { next_header, data } => SpecExtensionHeader::AuthHeader {
                next_header: *next_header,
                data: data@,
            },
            ExtensionHeader::MobilityHeader { next_header, data } => SpecExtensionHeader::MobilityHeader {
                next_header: *next_header,
                data: data@,
            },
        }
    }
}

/// The values of a sequence of extension headers.
pub open spec fn extension_header_views<'a>(headers: Seq<ExtensionHeader<'a>>) -> Seq<SpecExtensionHeader> {
    headers.map_values(|h: ExtensionHeader<'a>| h@)
}

impl<'a> View for IPv6Packet<'a> {
    type V = SpecIPv6Packet;

    open spec fn view(&self) -> SpecIPv6Packet {
        SpecIPv6Packet {
            header: self.header,
            extension_headers: extension_header_views(self.extension_headers@),
            payload: self.payload@,
        }
    }
}

/// The fixed 40-byte header: version (4 bits), traffic class (8 bits) and flow label
/// (20 bits) in one big-endian 32-bit word, then payload length, next header, hop
/// limit, and the 128-bit source and destination addresses.
pub open spec fn spec_parse_ipv6_header(s: Seq<u8>) -> Option<(IPv6PacketHeader, nat)> {
    if s.len() < 40 {
        None
    } else {
        let first_line = be_at(s, 0, 4);
        Some(
            (
                IPv6PacketHeader {
                    version: (first_line / 0x1000_0000) as u8,
                    traffic_class: ((first_line / 0x10_0000) % 0x100) as u8,
                    flow_label: (first_line % 0x10_0000) as u32,
                    payload_len: be_u16_at(s, 4),
                    next_header: s[6],
                    hop_limit: s[7],
                    source: be_at(s, 8, 16) as u128,
                    dest: be_at(s, 24, 16) as u128,
                },
                40,
            ),
        )
    }
}

/// Whether a next-header number names a header shaped as next header, length, data:
/// Hop-by-Hop Options (0), Destination Options (60), Routing (43), Mobility (135),
/// and the Authentication Header (51), whose length counts in other units.
pub open spec fn is_length_prefixed(next: u8) -> bool {
    next == 0 || next == 60 || next == 43 || next == 135 || next == 51
}

/// The length of an extension header of kind `next` with length byte `len`: for the
/// Authentication Header 4-octet units less 2 (RFC 4302), for the others 8-octet units
/// not counting the first 8 octets.
pub open spec fn extension_header_len(next: u8, len: u8) -> int {
    if next == 51 {
        (len + 2) * 4
    } else {
        (len + 1) * 8
    }
}

/// The length-prefixed header of kind `next`, with its fields.
pub open spec fn spec_length_prefixed_header(next: u8, next_header: u8, data: Seq<u8>) -> SpecExtensionHeader {
    if next == 0 {
        SpecExtensionHeader::HopByHopOptions { next_header, data }
    } else if next == 60 {
        SpecExtensionHeader::DestOptions { next_header, data }
    } else if next == 43 {
        SpecExtensionHeader::RoutingHeader { next_header, data }
    } else if next == 135 {
        SpecExtensionHeader::MobilityHeader { next_header, data }
    } else {
        SpecExtensionHeader::AuthHeader { next_header, data }
    }
}

/// The 8-byte fragment header: next header, a reserved byte, the fragment offset (top
/// 13 bits) and M flag (low bit) of a big-endian 16-bit word, and the identification.
pub open spec fn spec_fragment_header(s: Seq<u8>) -> SpecExtensionHeader {
    SpecExtensionHeader::FragmentHeader {
        next_header: s[0],
        fragment_offset: (be_at(s, 2, 2) / 8) as u16,
        more_fragments: be_at(s, 2, 2) % 2 == 1,
        identification: be_u32_at(s, 4),
    }
}

/// Whether a next-header number names an extension header.
pub open spec fn is_extension_header(next: u8) -> bool {
    is_length_prefixed(next) || next == 44
}

/// The next-header field of an extension header.
pub open spec fn next_of(h: SpecExtensionHeader) -> u8 {
    match h {
        SpecExtensionHeader::HopByHopOptions { next_header, .. } => next_header,
        SpecExtensionHeader::DestOptions { next_header, .. } => next_header,
        SpecExtensionHeader::RoutingHeader { next_header, .. } => next_header,
        SpecExtensionHeader::FragmentHeader { next_header, .. } => next_header,
        SpecExtensionHeader::AuthHeader { next_header, .. } => next_header,
        SpecExtensionHeader::MobilityHeader { next_header, .. } => next_header,
    }
}

/// The extension header of kind `next` that `s` starts with, and its length.
pub open spec fn spec_extension_header(next: u8, s: Seq<u8>) -> Option<(SpecExtensionHeader, nat)> {
    if is_length_prefixed(next) {
        if s.len() < 2 || s.len() < extension_header_len(next, s[1]) {
            None
        } else {
            let total = extension_header_len(next, s[1]);
            Some((spec_length_prefixed_header(next, s[0], s.subrange(2, total)), total as nat))
        }
    } else if s.len() < 8 {
        None
    } else {
        Some((spec_fragment_header(s), 8))
    }
}

/// The chain of extension headers that `s` starts with, where the first has kind `next`;
/// the chain ends at a kind that is no extension header. With the headers come the kind
/// that ended the chain and the number of bytes that the headers take.
pub open spec fn spec_extension_headers(next: u8, s: Seq<u8>) -> Option<(Seq<SpecExtensionHeader>, u8, nat)>
    decreases s.len(),
{
    if !is_extension_header(next) {
        Some((Seq::empty(), next, 0))
    } else {
        match spec_extension_header(next, s) {
            None => None,
            Some((h, n)) => match spec_extension_headers(next_of(h), s.skip(n as int)) {
                None => None,
                Some((hs, last, c)) => Some((seq![h] + hs, last, n + c)),
            },
        }
    }
}

/// The number of bytes that an extension header takes: 8 for a fragment header, and
/// its two leading bytes and its data for the others.
pub open spec fn extension_header_size(h: SpecExtensionHeader) -> nat {
    match h {
        SpecExtensionHeader::FragmentHeader { .. } => 8,
        SpecExtensionHeader::HopByHopOptions { data, .. } => 2 + data.len(),
        SpecExtensionHeader::DestOptions { data, .. } => 2 + data.len(),
        SpecExtensionHeader::RoutingHeader { data, .. } => 2 + data.len(),
        SpecExtensionHeader::AuthHeader { data, .. } => 2 + data.len(),
        SpecExtensionHeader::MobilityHeader { data, .. } => 2 + data.len(),
    }
}

/// The number of bytes that a sequence of extension headers takes.
pub open spec fn extension_headers_size(hs: Seq<SpecExtensionHeader>) -> nat
    decreases hs.len(),
{
    if hs.len() == 0 {
        0
    } else {
        extension_header_size(hs[0]) + extension_headers_size(hs.drop_first())
    }
}

/// The length that the payload length is reduced by, the sum of the sizes of the
/// extension headers, is the number of bytes that the extension headers take in the
/// packet: the payload starts right after them.
pub proof fn lemma_extension_headers_size(next: u8, s: Seq<u8>)
    requires
        spec_extension_headers(next, s) is Some,
    ensures
        ({
            let (hs, _, c) = spec_extension_headers(next, s).unwrap();
            &&& extension_headers_size(hs) == c
            &&& c <= s.len()
        }),
    decreases s.len(),
{
    if is_extension_header(next) {
        let (h, n) = spec_extension_header(next, s).unwrap();
        lemma_extension_headers_size(next_of(h), s.skip(n as int));
        let (hs, _, c) = spec_extension_headers(next_of(h), s.skip(n as int)).unwrap();
        assert((seq![h] + hs).drop_first() =~= hs);
        assert((seq![h] + hs)[0] == h);
    }
}

/// The transport packet that an IPv6 payload after next header `next` holds; only
/// TCP (6), UDP (17) and ICMPv6 (58) are parsed.
pub open spec fn spec_ipv6_transport(next: u8, s: Seq<u8>) -> Option<SpecTransportPacket> {
    if next == 6 {
        spec_transport_tcp(s)
    } else if next == 17 {
        spec_transport_udp(s)
    } else if next == 58 {
        spec_transport_icmpv6(s)
    } else {
        None
    }
}

/// The fixed header, the extension headers, and the payload: the payload length less
/// the extension headers' length, read as the transport packet that the last next
/// header names.
pub open spec fn spec_parse_ipv6(s: Seq<u8>) -> Option<(SpecIPv6Packet, nat)> {
    match spec_parse_ipv6_header(s) {
        None => None,
        Some((header, _)) => match spec_extension_headers(header.next_header, s.skip(40)) {
            None => None,
            Some((hs, last, c)) => {
                let rest = s.skip(40 + c as int);
                let payload_len = if header.payload_len > c {
                    header.payload_len - c
                } else {
                    0
                };
                if rest.len() < payload_len {
                    None
                } else {
                    match spec_ipv6_transport(last, rest.take(payload_len)) {
                        None => None,
                        Some(payload) => Some(
                            (
                                SpecIPv6Packet { header, extension_headers: hs, payload },
                                (40 + c + payload_len) as nat,
                            ),
                        ),
                    }
                }
            },
        },
    }
}

/// The next-header number that names the kind of an extension header: 0 Hop-by-Hop
/// Options, 60 Destination Options, 43 Routing, 135 Mobility, 51 Authentication Header,
/// 44 Fragment.
pub open spec fn extension_header_number(h: SpecExtensionHeader) -> u8 {
    match h {
        SpecExtensionHeader::HopByHopOptions { .. } => 0,
        SpecExtensionHeader::DestOptions { .. } => 60,
        SpecExtensionHeader::RoutingHeader { .. } => 43,
        SpecExtensionHeader::MobilityHeader { .. } => 135,
        SpecExtensionHeader::AuthHeader { .. } => 51,
        SpecExtensionHeader::FragmentHeader { .. } => 44,
    }
}

/// The number that ends a chain of extension headers which starts after next header
/// `first`: the next-header field of its last header, or `first` where it is empty.
pub open spec fn chain_end(first: u8, hs: Seq<SpecExtensionHeader>) -> u8 {
    if hs.len() == 0 {
        first
    } else {
        next_of(hs.last())
    }
}

/// Each header of a chain is of the kind that the number before it names: the first of
/// the kind `next`, each later one of the kind that its predecessor's next-header field
/// names. The chain ends at the first number that names no extension header.
pub proof fn lemma_extension_header_kinds(next: u8, s: Seq<u8>)
    requires
        spec_extension_headers(next, s) is Some,
    ensures
        ({
            let (hs, last, _) = spec_extension_headers(next, s).unwrap();
            &&& forall|i: int|
                0 <= i < hs.len() ==> extension_header_number(#[trigger] hs[i]) == (if i == 0 {
                    next
                } else {
                    next_of(hs[i - 1])
                })
            &&& last == chain_end(next, hs)
            &&& !(last == 0 || last == 60 || last == 43 || last == 135 || last == 51 || last == 44)
        }),
    decreases s.len(),
{
    if is_extension_header(next) {
        let (h, n) = spec_extension_header(next, s).unwrap();
        assert(extension_header_number(h) == next);
        lemma_extension_header_kinds(next_of(h), s.skip(n as int));
        let (tl, last, _) = spec_extension_headers(next_of(h), s.skip(n as int)).unwrap();
        let hs = seq![h] + tl;
        assert forall|i: int| 0 <= i < hs.len() implies extension_header_number(#[trigger] hs[i]) == (if i == 0 {
            next
        } else {
            next_of(hs[i - 1])
        }) by {
            if i > 0 {
                assert(hs[i] == tl[i - 1]);
                if i > 1 {
                    assert(hs[i - 1] == tl[i - 2]);
                }
            }
        }
        if tl.len() > 0 {
            assert(hs.last() == tl.last());
        }
    }
}

/// How a packet reads its chain of extension headers: the first header is of the kind
/// that the fixed header's next-header byte (byte 6) names, each later one of the kind
/// that its predecessor names, and the payload is the transport packet that the number
/// ending the chain names: 6 TCP, 17 UDP, 58 ICMPv6. Where the extension headers fit in
/// the payload length, the packet takes the 40-byte header and that many bytes.
pub proof fn lemma_ipv6_chain(s: Seq<u8>)
    requires
        spec_parse_ipv6(s) is Some,
    ensures
        ({
            let p = spec_parse_ipv6(s).unwrap().0;
            let hs = p.extension_headers;
            let end = chain_end(s[6], hs);
            &&& s.len() >= 40
            &&& p.header.next_header == s[6]
            &&& forall|i: int|
                0 <= i < hs.len() ==> extension_header_number(#[trigger] hs[i]) == (if i == 0 {
                    s[6]
                } else {
                    next_of(hs[i - 1])
                })
            &&& (p.payload is TCP <==> end == 6)
            &&& (p.payload is UDP <==> end == 17)
            &&& (p.payload is ICMPv6 <==> end == 58)
            &&& extension_headers_size(hs) <= p.header.payload_len ==> spec_parse_ipv6(s).unwrap().1 == 40
                + p.header.payload_len
        }),
{
    lemma_extension_header_kinds(s[6], s.skip(40));
    lemma_extension_headers_size(s[6], s.skip(40));
}

/// How the fixed header reads its first eight bytes: the version is the top four bits
/// of byte 0, the traffic class the next eight bits, the flow label the low twenty bits
/// of bytes 1-3; the payload length is bytes 4-5, big-endian, the next header byte 6 and
/// the hop limit byte 7; the source address is bytes 8-23 and the destination address
/// bytes 24-39, big-endian. Forty bytes are enough for a header.
pub proof fn lemma_ipv6_header_fields(s: Seq<u8>)
    ensures
        spec_parse_ipv6_header(s) is Some <==> s.len() >= 40,
        spec_parse_ipv6_header(s) is Some ==> {
            let h = spec_parse_ipv6_header(s).unwrap().0;
            &&& h.version == s[0] / 16
            &&& h.traffic_class == (s[0] % 16) * 16 + s[1] / 16
            &&& h.flow_label == (s[1] % 16) * 65536 + 256 * s[2] + s[3]
            &&& h.payload_len == 256 * s[4] + s[5]
            &&& h.next_header == s[6]
            &&& h.hop_limit == s[7]
            &&& h.source == be_value(s.subrange(8, 24))
            &&& h.dest == be_value(s.subrange(24, 40))
        },
{
    if s.len() >= 40 {
        lemma_be_value_bound(s.subrange(8, 24));
        lemma_be_value_bound(s.subrange(24, 40));
        lemma_pow256_values();
        lemma_be_at_four(s, 0);
        lemma_be_at_two(s, 4);
        let w = be_at(s, 0, 4);
        let (a, b, c, d) = (s[0] as int, s[1] as int, s[2] as int, s[3] as int);
        assert(w / 0x1000_0000 == a / 16 && (w / 0x10_0000) % 0x100 == (a % 16) * 16 + b / 16 && w % 0x10_0000
            == (b % 16) * 65536 + 256 * c + d) by (nonlinear_arith)
            requires
                w == 16777216 * a + 65536 * b + 256 * c + d,
                0 <= a < 256,
                0 <= b < 256,
                0 <= c < 256,
                0 <= d < 256,
        ;
    }
}

/// How an extension header is laid out. Hop-by-Hop Options, Destination Options, Routing
/// and Mobility headers take `8 * (s[1] + 1)` bytes and the Authentication Header
/// `4 * (s[1] + 2)`: their next header is byte 0 and their data all bytes from 2 up to
/// that length. A fragment header takes eight bytes: the next header is byte 0, the
/// fragment offset the top thirteen bits of bytes 2-3, the M flag the low bit of byte 3,
/// and the identification bytes 4-7, big-endian.
pub proof fn lemma_extension_header_layout(next: u8, s: Seq<u8>)
    requires
        is_extension_header(next),
    ensures
        ({
            let size = if next == 51 { 4 * (s[1] + 2) } else if next == 44 { 8 } else { 8 * (s[1] + 1) };
            &&& spec_extension_header(next, s) is Some <==> s.len() >= 2 && s.len() >= size
            &&& spec_extension_header(next, s) is Some ==> {
                let (h, n) = spec_extension_header(next, s).unwrap();
                &&& n == size
                &&& next_of(h) == s[0]
                &&& next != 44 ==> extension_header_size(h) == size
                &&& next != 44 ==> (h matches SpecExtensionHeader::HopByHopOptions { data, .. } ==> data == s.subrange(2, size as int))
                &&& next != 44 ==> (h matches SpecExtensionHeader::DestOptions { data, .. } ==> data == s.subrange(2, size as int))
                &&& next != 44 ==> (h matches SpecExtensionHeader::RoutingHeader { data, .. } ==> data == s.subrange(2, size as int))
                &&& next != 44 ==> (h matches SpecExtensionHeader::MobilityHeader { data, .. } ==> data == s.subrange(2, size as int))
                &&& next != 44 ==> (h matches SpecExtensionHeader::AuthHeader { data, .. } ==> data == s.subrange(2, size as int))
                &&& next == 44 ==> h == SpecExtensionHeader::FragmentHeader {
                    next_header: s[0],
                    fragment_offset: ((256 * s[2] + s[3]) / 8) as u16,
                    more_fragments: s[3] % 2 == 1,
                    identification: (16777216 * s[4] + 65536 * s[5] + 256 * s[6] + s[7]) as u32,
                }
            }
        }),
{
    if next == 44 && s.len() >= 8 {
        lemma_be_at_two(s, 2);
        lemma_be_at_four(s, 4);
        let v = be_at(s, 2, 2);
        assert(v % 2 == s[3] % 2) by (nonlinear_arith)
            requires
                v == 256 * s[2] + s[3],
        ;
    }
}

fn parse_ipv6_header(cur: &mut Cursor) -> (r: Option<IPv6PacketHeader>)
    requires
        old(cur).in_bounds(),
    ensures
        parse_outcome(r, spec_parse_ipv6_header(old(cur).rest()), *old(cur), *final(cur)),
{
    proof {
        cur.lemma_data_len();
        broadcast use lemma_skip_subrange;
    }
    if cur.remaining().len() < 40 {
        return None;
    }
    let first_line = cur.u32_be().unwrap();
    let version = (first_line / 0x1000_0000) as u8;
    let traffic_class = ((first_line / 0x10_0000) % 0x100) as u8;
    let flow_label = first_line % 0x10_0000;

    let payload_len = cur.u16_be().unwrap();
    let next_header = cur.u8().unwrap();
    let hop_limit = cur.u8().unwrap();
    let source = cur.u128_be().unwrap();
    let dest = cur.u128_be().unwrap();

    Some(IPv6PacketHeader { version, traffic_class, flow_label, payload_len, next_header, hop_limit, source, dest })
}

// Shared shape for Hop-by-Hop, Destination Options, Routing and Mobility headers:
// next header, length in 8-octet units not counting the first 8 octets, then the rest.
fn parse_generic_extension_header<'a>(cur: &mut Cursor<'a>) -> (r: Option<(u8, &'a [u8])>)
    requires
        old(cur).in_bounds(),
    ensures
        final(cur).data() == old(cur).data(),
        ({
            let s = old(cur).rest();
            if s.len() < 2 || s.len() < extension_header_len(0, s[1]) {
                r is None
            } else {
                let total = extension_header_len(0, s[1]);
                &&& r matches Some((nh, data)) && nh == s[0] && data@ == s.subrange(2, total)
                &&& final(cur).position() == old(cur).position() + total
            }
        }),
{
    proof {
        cur.lemma_data_len();
        broadcast use lemma_skip_subrange;
    }
    if cur.remaining().len() < 2 {
        return None;
    }
    let next_header = cur.u8().unwrap();
    let hdr_ext_len = cur.u8().unwrap();
    let total_len = (hdr_ext_len as usize + 1) * 8;
    if cur.remaining().len() < total_len - 2 {
        return None;
    }
    let data = cur.bytes(total_len - 2).unwrap();
    Some((next_header, data))
}

// The Authentication Header counts its length in 4-octet units, minus 2 (RFC 4302).
fn parse_auth_header<'a>(cur: &mut Cursor<'a>) -> (r: Option<(u8, &'a [u8])>)
    requires
        old(cur).in_bounds(),
    ensures
        final(cur).data() == old(cur).data(),
        ({
            let s = old(cur).rest();
            if s.len() < 2 || s.len() < extension_header_len(51, s[1]) {
                r is None
            } else {
                let total = extension_header_len(51, s[1]);
                &&& r matches Some((nh, data)) && nh == s[0] && data@ == s.subrange(2, total)
                &&& final(cur).position() == old(cur).position() + total
            }
        }),
{
    proof {
        cur.lemma_data_len();
        broadcast use lemma_skip_subrange;
    }
    if cur.remaining().len() < 2 {
        return None;
    }
    let next_header = cur.u8().unwrap();
    let payload_len = cur.u8().unwrap();
    let total_len = (payload_len as usize + 2) * 4;
    if cur.remaining().len() < total_len - 2 {
        return None;
    }
    let data = cur.bytes(total_len - 2).unwrap();
    Some((next_header, data))
}

// The fragment header has no length field: it is always 8 bytes.
fn parse_fragment_header<'a>(cur: &mut Cursor<'a>) -> (r: Option<ExtensionHeader<'a>>)
    requires
        old(cur).in_bounds(),
    ensures
        final(cur).data() == old(cur).data(),
        old(cur).rest().len() < 8 ==> r is None,
        old(cur).rest().len() >= 8 ==> {
            &&& r matches Some(h) && h@ == spec_fragment_header(old(cur).rest())
            &&& final(cur).position() == old(cur).position() + 8
        },
{
    proof {
        cur.lemma_data_len();
        broadcast use lemma_skip_subrange;
    }
    if cur.remaining().len() < 8 {
        return None;
    }
    let next_header = cur.u8().unwrap();
    let _reserved = cur.u8().unwrap();
    let offset_res_m = cur.u16_be().unwrap();
    let fragment_offset = offset_res_m / 8;
    let more_fragments = offset_res_m % 2 != 0;
    let identification = cur.u32_be().unwrap();

    Some(ExtensionHeader::FragmentHeader { next_header, fragment_offset, more_fragments, identification })
}

/// Reads the extension header of kind `next`, one that `is_extension_header` accepts.
fn parse_extension_header<'a>(cur: &mut Cursor<'a>, next: u8) -> (r: Option<ExtensionHeader<'a>>)
    requires
        old(cur).in_bounds(),
        is_extension_header(next),
    ensures
        parse_outcome(r, spec_extension_header(next, old(cur).rest()), *old(cur), *final(cur)),
{
    match next {
        0 | 60 | 43 | 135 => {
            let (nh, data) = match parse_generic_extension_header(cur) {
                Some(x) => x,
                None => return None,
            };
            Some(
                match next {
                    0 => ExtensionHeader::HopByHopOptions { next_header: nh, data },
                    60 => ExtensionHeader::DestOptions { next_header: nh, data },
                    43 => ExtensionHeader::RoutingHeader { next_header: nh, data },
                    _ => ExtensionHeader::MobilityHeader { next_header: nh, data },
                },
            )
        },
        51 => {
            let (nh, data) = match parse_auth_header(cur) {
                Some(x) => x,
                None => return None,
            };
            Some(ExtensionHeader::AuthHeader { next_header: nh, data })
        },
        _ => parse_fragment_header(cur),
    }
}

/// The next-header field of an extension header.
fn next_header_of(h: &ExtensionHeader) -> (r: u8)
    ensures
        r == next_of(h@),
{
    match h {
        ExtensionHeader::HopByHopOptions { next_header, .. } => *next_header,
        ExtensionHeader::DestOptions { next_header, .. } => *next_header,
        ExtensionHeader::RoutingHeader { next_header, .. } => *next_header,
        ExtensionHeader::FragmentHeader { next_header, .. } => *next_header,
        ExtensionHeader::AuthHeader { next_header, .. } => *next_header,
        ExtensionHeader::MobilityHeader { next_header, .. } => *next_header,
    }
}

/// How far reading extension headers has come: `done` were read in `k` bytes, and `tail`
/// is what the chain holds from there on, so that `whole` is `done` followed by `tail`.
pub open spec fn extension_progress(
    whole: Option<(Seq<SpecExtensionHeader>, u8, nat)>,
    done: Seq<SpecExtensionHeader>,
    k: nat,
    tail: Option<(Seq<SpecExtensionHeader>, u8, nat)>,
) -> bool {
    match tail {
        None => whole is None,
        Some((hs, last, c)) => whole == Some((done + hs, last, k + c)),
    }
}

/// Parses an IPv6 payload as the transport packet that next header `next` names.
fn parse_ipv6_payload<'a>(next: u8, cur: &mut Cursor<'a>) -> (r: Option<TransportPacket<'a>>)
    requires
        old(cur).in_bounds(),
    ensures
        match spec_ipv6_transport(next, old(cur).rest()) {
            None => r is None,
            Some(p) => r matches Some(t) && t@ == p,
        },
{
    match next {
        6 => match try_parse_tcp(cur) {
            Some(p) => Some(TransportPacket::TCP(p)),
            None => None,
        },
        17 => match try_parse_udp(cur) {
            Some(p) => Some(TransportPacket::UDP(p)),
            None => None,
        },
        58 => match try_parse_icmpv6(cur) {
            Some(p) => Some(TransportPacket::ICMPv6(p)),
            None => None,
        },
        _ => None,
    }
}

/// Reads the chain of extension headers whose first has kind `first`, and returns them
/// with the kind that ended the chain and the number of bytes they take.
fn parse_extension_headers<'a>(cur: &mut Cursor<'a>, first: u8) -> (r: Option<(Vec<ExtensionHeader<'a>>, u8, usize)>)
    requires
        old(cur).in_bounds(),
    ensures
        final(cur).data() == old(cur).data(),
        match spec_extension_headers(first, old(cur).rest()) {
            None => r is None,
            Some((hs, last, c)) => {
                &&& r matches Some((v, nh, len)) && extension_header_views(v@) == hs && nh == last && len == c
                &&& final(cur).position() == old(cur).position() + c
                &&& final(cur).in_bounds()
            },
        },
{
    proof {
        cur.lemma_data_len();
    }
    let ghost p = cur.position();
    let ghost e = cur.rest();
    let ghost whole = spec_extension_headers(first, e);

    let mut extension_headers: Vec<ExtensionHeader<'a>> = Vec::new();
    let mut next_header = first;
    let mut ext_headers_len: usize = 0;

    proof {
        assert(e.skip(0) =~= e);
        assert(extension_header_views(extension_headers@) + Seq::<SpecExtensionHeader>::empty()
            =~= Seq::<SpecExtensionHeader>::empty());
    }
    loop
        invariant_except_break
            cur.data() == old(cur).data(),
            cur.in_bounds(),
            cur.data().len() <= usize::MAX,
            0 <= p,
            p == old(cur).position(),
            p + ext_headers_len == cur.position(),
            e == cur.data().skip(p),
            whole == spec_extension_headers(first, e),
            extension_progress(
                whole,
                extension_header_views(extension_headers@),
                ext_headers_len as nat,
                spec_extension_headers(next_header, e.skip(ext_headers_len as int)),
            ),
        ensures
            cur.data() == old(cur).data(),
            cur.in_bounds(),
            p + ext_headers_len == cur.position(),
            whole == Some((extension_header_views(extension_headers@), next_header, ext_headers_len as nat)),
        decreases cur.data().len() - cur.position(),
    {
        let ghost before = extension_headers@;
        let ghost k = ext_headers_len as int;
        proof {
            lemma_skip_skip(cur.data(), p, k);
        }
        let ghost t = e.skip(k);
        if !(next_header == 0 || next_header == 60 || next_header == 43 || next_header == 135
            || next_header == 51 || next_header == 44) {
            proof {
                assert(extension_header_views(extension_headers@) + Seq::<SpecExtensionHeader>::empty()
                    =~= extension_header_views(extension_headers@));
            }
            break;
        }
        let h = match parse_extension_header(cur, next_header) {
            Some(h) => h,
            None => return None,
        };
        let ghost n = cur.position() - p - k;
        let size = match &h {
            ExtensionHeader::FragmentHeader { .. } => 8,
            ExtensionHeader::HopByHopOptions { data, .. }
            | ExtensionHeader::DestOptions { data, .. }
            | ExtensionHeader::RoutingHeader { data, .. }
            | ExtensionHeader::AuthHeader { data, .. }
            | ExtensionHeader::MobilityHeader { data, .. } => 2 + data.len(),
        };
        assert(size == n);
        next_header = next_header_of(&h);
        extension_headers.push(h);
        ext_headers_len = ext_headers_len + size;
        proof {
            lemma_skip_skip(e, k, n);
            assert(extension_header_views(extension_headers@) =~= extension_header_views(before).push(h@));
            match spec_extension_headers(next_header, e.skip(ext_headers_len as int)) {
                None => {},
                Some((hs, last, c)) => {
                    assert(extension_header_views(extension_headers@) + hs
                        =~= extension_header_views(before) + (seq![h@] + hs));
                },
            }
        }
    }
    Some((extension_headers, next_header, ext_headers_len))
}

/// Reads an IPv6 packet; `None` exactly where `spec_parse_ipv6` has none.
pub(crate) fn try_parse_ipv6<'a>(cur: &mut Cursor<'a>) -> (r: Option<IPv6Packet<'a>>)
    requires
        old(cur).in_bounds(),
    ensures
        parse_outcome(r, spec_parse_ipv6(old(cur).rest()), *old(cur), *final(cur)),
{
    proof {
        cur.lemma_data_len();
    }
    let ghost s = cur.rest();
    let ghost p = cur.position();
    let header = match parse_ipv6_header(cur) {
        Some(h) => h,
        None => return None,
    };
    proof {
        lemma_skip_skip(cur.data(), p, 40);
    }
    let (extension_headers, next_header, ext_headers_len) = match parse_extension_headers(cur, header.next_header) {
        Some(x) => x,
        None => return None,
    };

    let total_length = header.payload_len;
    let payload_len = if total_length as usize > ext_headers_len {
        total_length as usize - ext_headers_len
    } else {
        0
    };
    if cur.remaining().len() < payload_len {
        return None;
    }
    let ghost r = cur.rest();
    proof {
        lemma_skip_skip(cur.data(), p, 40 + ext_headers_len);
    }
    let mut payload_cur = Cursor::new(cur.bytes(payload_len).unwrap());
    proof {
        assert(payload_cur.rest() =~= r.take(payload_len as int));
    }
    let payload = match parse_ipv6_payload(next_header, &mut payload_cur) {
        Some(t) => t,
        None => return None,
    };

    Some(IPv6Packet { header, extension_headers, payload })
}

/// Reads an IPv6 packet; the bytes must hold one (see `spec_parse_ipv6`).
#[allow(dead_code)]
pub(crate) fn parse_ipv6<'a>(cur: &mut Cursor<'a>) -> (r: IPv6Packet<'a>)
    requires
        old(cur).in_bounds(),
        spec_parse_ipv6(old(cur).rest()) is Some,
    ensures
        parse_outcome(Some(r), spec_parse_ipv6(old(cur).rest()), *old(cur), *final(cur)),
{
    try_parse_ipv6(cur).unwrap()
}

} // verus!
