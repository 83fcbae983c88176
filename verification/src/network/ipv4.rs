//! IPv4 packets and their options.
use vstd::prelude::*;

use crate::byteorder::{be_at, be_u16_at, be_u32_at, lemma_be_at_four, lemma_be_at_two, lemma_skip_skip, lemma_skip_subrange};
use crate::layer::{
    spec_transport_icmpv4, spec_transport_igmp, spec_transport_tcp, spec_transport_udp,
    SpecTransportPacket, TransportPacket,
};
use crate::network::icmpv4::try_parse_icmpv4;
use crate::network::igmp::try_parse_igmp;
use crate::pcap::cursor::{parse_outcome, Cursor};
use crate::transport::tcp::try_parse_tcp;
use crate::transport::udp::try_parse_udp;

verus! {

/// The flag bits of a packet: Reserved is 0b000, DF (don't fragment) 0b010 and
/// MF (more fragments) 0b001.
#[derive(Debug, Clone, Copy)]
pub enum Flag {
    Reserved,
    DF,
    MF,
}

/// The protocols that the protocol field names: ICMP is 1, IGMP 2, TCP 6, UDP 17,
/// ENCAP 41, OSPF 89 and SCTP 132.
#[derive(Debug)]
pub enum Protocol {
    ICMP,
    IGMP,
    TCP,
    UDP,
    ENCAP,
    OSPF,
    SCTP,
}

pub struct IPv4Packet<'a> {
    pub version: u8,
    pub ihl: u8,
    pub dscp: u8,
    pub ecn: u8,
    pub total_length: u16,
    pub id: u16,
    pub flag: Flag,
    pub fragment_offset: u16,
    pub ttl: u8,
    pub protocol: Protocol,
    pub header_checksum: u16,
    pub source: u32,
    pub dest: u32,
    pub options: Vec<IpOption<'a>>,
    pub payload: TransportPacket<'a>,
}

#[derive(Debug)]
pub enum IpOption<'a> {
    EndOfList,
    NoOp,
    RecordRoute(&'a [u8]),
    Timestamp(&'a [u8]),
    StrictSourceRoute(&'a [u8]),
    LooseSourceRoute(&'a [u8]),
    Other { kind: u8, data: &'a [u8] },
}

/// The value of an [`IpOption`].
pub enum SpecIpOption {
    EndOfList,
    NoOp,
    RecordRoute(Seq<u8>),
    Timestamp(Seq<u8>),
    StrictSourceRoute(Seq<u8>),
    LooseSourceRoute(Seq<u8>),
    Other { kind: u8, data: Seq<u8> },
}

/// The value of an [`IPv4Packet`].
pub struct SpecIPv4Packet {
    pub version: u8,
    pub ihl: u8,
    pub dscp: u8,
    pub ecn: u8,
    pub total_length: u16,
    pub id: u16,
    pub flag: Flag,
    pub fragment_offset: u16,
    pub ttl: u8,
    pub protocol: Protocol,
    pub header_checksum: u16,
    pub source: u32,
    pub dest: u32,
    pub options: Seq<SpecIpOption>,
    pub payload: SpecTransportPacket,
}

impl<'a> View for IpOption<'a> {
    type V = SpecIpOption;

    open spec fn view(&self) -> SpecIpOption {
        match self {
            IpOption::EndOfList => SpecIpOption::EndOfList,
            IpOption::NoOp => SpecIpOption::NoOp,
            IpOption::RecordRoute(d) => SpecIpOption::RecordRoute(d@),
            IpOption::Timestamp(d) => SpecIpOption::Timestamp(d@),
            IpOption::StrictSourceRoute(d) => SpecIpOption::StrictSourceRoute(d@),
            IpOption::LooseSourceRoute(d) => SpecIpOption::LooseSourceRoute(d@),
            IpOption::Other { kind, data } => SpecIpOption::Other { kind: *kind, data: data@ },
        }
    }
}

/// The values of a sequence of options.
pub open spec fn ip_option_views<'a>(options: Seq<IpOption<'a>>) -> Seq<SpecIpOption> {
    options.map_values(|o: IpOption<'a>| o@)
}

impl<'a> View for IPv4Packet<'a> {
    type V = SpecIPv4Packet;

    open spec fn view(&self) -> SpecIPv4Packet {
        SpecIPv4Packet {
            version: self.version,
            ihl: self.ihl,
            dscp: self.dscp,
            ecn: self.ecn,
            total_length: self.total_length,
            id: self.id,
            flag: self.flag,
            fragment_offset: self.fragment_offset,
            ttl: self.ttl,
            protocol: self.protocol,
            header_checksum: self.header_checksum,
            source: self.source,
            dest: self.dest,
            options: ip_option_views(self.options@),
            payload: self.payload@,
        }
    }
}

/// The option of kind `kind` whose value (the bytes after kind and length) is `value`.
pub open spec fn spec_ip_option(kind: u8, value: Seq<u8>) -> SpecIpOption {
    if kind == 7 {
        SpecIpOption::RecordRoute(value)
    } else if kind == 68 {
        SpecIpOption::Timestamp(value)
    } else if kind == 131 {
        SpecIpOption::LooseSourceRoute(value)
    } else if kind == 137 {
        SpecIpOption::StrictSourceRoute(value)
    } else {
        SpecIpOption::Other { kind, data: value }
    }
}

/// The options that `data` lists. Kinds 0 (end of list, which ends it) and 1 (no
/// operation) are one byte long; every other option is kind, length, value, where the
/// length counts all three. The list ends early at a length below 2 or past the end.
pub open spec fn spec_ip_options(data: Seq<u8>) -> Seq<SpecIpOption>
    decreases data.len(),
{
    if data.len() == 0 {
        Seq::empty()
    } else if data[0] == 0 {
        seq![SpecIpOption::EndOfList]
    } else if data[0] == 1 {
        seq![SpecIpOption::NoOp] + spec_ip_options(data.skip(1))
    } else if data.len() < 2 || data[1] < 2 || data[1] > data.len() {
        Seq::empty()
    } else {
        seq![spec_ip_option(data[0], data.subrange(2, data[1] as int))]
            + spec_ip_options(data.skip(data[1] as int))
    }
}

/// The end-of-list option ends the list: it is the last option, if it occurs.
pub proof fn lemma_end_of_options_is_last(data: Seq<u8>)
    ensures
        forall|i: int|
            0 <= i < spec_ip_options(data).len() - 1 ==> !(#[trigger] spec_ip_options(data)[i] is EndOfList),
    decreases data.len(),
{
    if data.len() > 0 && data[0] != 0 {
        if data[0] == 1 {
            lemma_end_of_options_is_last(data.skip(1));
            assert forall|i: int| 0 <= i < spec_ip_options(data).len() - 1 implies !(#[trigger] spec_ip_options(data)[i] is EndOfList) by {
                if i > 0 {
                    assert(spec_ip_options(data)[i] == spec_ip_options(data.skip(1))[i - 1]);
                }
            }
        } else if !(data.len() < 2 || data[1] < 2 || data[1] > data.len()) {
            lemma_end_of_options_is_last(data.skip(data[1] as int));
            assert forall|i: int| 0 <= i < spec_ip_options(data).len() - 1 implies !(#[trigger] spec_ip_options(data)[i] is EndOfList) by {
                if i > 0 {
                    assert(spec_ip_options(data)[i] == spec_ip_options(data.skip(data[1] as int))[i - 1]);
                }
            }
        }
    }
}

/// How a list of options starts. Kind 0 ends the list; kind 1 is one byte of no
/// operation; any other kind is followed by a length byte counting kind, length and value.
/// Kind 7 is Record Route, 68 Timestamp, 131 Loose Source Route, 137 Strict Source Route,
/// each with its value as it is; any other kind is kept with its value. A length below 2
/// or past the end ends the list.
pub proof fn lemma_ip_option_kinds(data: Seq<u8>)
    requires
        data.len() > 0,
    ensures
        data[0] == 0 ==> spec_ip_options(data) == seq![SpecIpOption::EndOfList],
        data[0] == 1 ==> spec_ip_options(data) == seq![SpecIpOption::NoOp] + spec_ip_options(data.skip(1)),
        data[0] >= 2 && (data.len() < 2 || data[1] < 2 || data[1] > data.len()) ==> spec_ip_options(data)
            == Seq::<SpecIpOption>::empty(),
        data[0] >= 2 && data.len() >= 2 && 2 <= data[1] <= data.len() ==> {
            let o = spec_ip_options(data)[0];
            let v = data.subrange(2, data[1] as int);
            &&& spec_ip_options(data) == seq![o] + spec_ip_options(data.skip(data[1] as int))
            &&& data[0] == 7 ==> o == SpecIpOption::RecordRoute(v)
            &&& data[0] == 68 ==> o == SpecIpOption::Timestamp(v)
            &&& data[0] == 131 ==> o == SpecIpOption::LooseSourceRoute(v)
            &&& data[0] == 137 ==> o == SpecIpOption::StrictSourceRoute(v)
            &&& !(data[0] == 7 || data[0] == 68 || data[0] == 131 || data[0] == 137) ==> o
                == SpecIpOption::Other { kind: data[0], data: v }
        },
{
}

/// The flag that the top three bits of the flags-and-offset field name.
pub open spec fn spec_flag(bits: int) -> Option<Flag> {
    if bits == 0 {
        Some(Flag::Reserved)
    } else if bits == 1 {
        Some(Flag::MF)
    } else if bits == 2 {
        Some(Flag::DF)
    } else {
        None
    }
}

/// The protocol that a protocol number names.
pub open spec fn spec_protocol(n: u8) -> Option<Protocol> {
    match n {
        1 => Some(Protocol::ICMP),
        2 => Some(Protocol::IGMP),
        6 => Some(Protocol::TCP),
        17 => Some(Protocol::UDP),
        41 => Some(Protocol::ENCAP),
        89 => Some(Protocol::OSPF),
        132 => Some(Protocol::SCTP),
        _ => None,
    }
}

/// The transport packet that an IPv4 payload of protocol `protocol` holds; only
/// TCP, UDP, ICMP and IGMP are parsed.
pub open spec fn spec_ipv4_transport(protocol: Protocol, s: Seq<u8>) -> Option<SpecTransportPacket> {
    match protocol {
        Protocol::TCP => spec_transport_tcp(s),
        Protocol::UDP => spec_transport_udp(s),
        Protocol::ICMP => spec_transport_icmpv4(s),
        Protocol::IGMP => spec_transport_igmp(s),
        _ => None,
    }
}

/// The number of option bytes that a header length (in 32-bit words) announces.
pub open spec fn ip_options_len(ihl: int) -> int {
    if ihl * 4 > 20 {
        ihl * 4 - 20
    } else {
        0
    }
}

/// The number of payload bytes: the total length less the header length, or, where
/// the total length is 0, all the bytes after the header.
pub open spec fn ipv4_payload_len(total_length: int, ihl: int, after_header: int) -> int {
    if total_length == 0 {
        after_header
    } else if total_length > ihl * 4 {
        total_length - ihl * 4
    } else {
        0
    }
}

/// A 20-byte header, the options that its header length announces, and the payload that
/// its total length announces, read as the transport packet of its protocol. The packet
/// has no value where the flag bits are 3 or more, the protocol is not one of
/// [`Protocol`], the payload's protocol is not parsed, or bytes are missing.
pub open spec fn spec_parse_ipv4(s: Seq<u8>) -> Option<(SpecIPv4Packet, nat)> {
    if s.len() < 20 {
        None
    } else {
        let ihl = s[0] % 16;
        let opt_len = ip_options_len(ihl as int);
        let flags_offset = be_at(s, 6, 2);
        match (spec_flag((flags_offset / 8192) as int), spec_protocol(s[9])) {
            (Some(flag), Some(protocol)) => {
                if s.len() < 20 + opt_len {
                    None
                } else {
                    let rest = s.skip(20 + opt_len);
                    let payload_len = ipv4_payload_len(be_at(s, 2, 2) as int, ihl as int, rest.len() as int);
                    if rest.len() < payload_len {
                        None
                    } else {
                        match spec_ipv4_transport(protocol, rest.take(payload_len)) {
                            None => None,
                            Some(payload) => Some(
                                (
                                    SpecIPv4Packet {
                                        version: s[0] / 16,
                                        ihl,
                                        dscp: s[1] / 4,
                                        ecn: s[1] % 4,
                                        total_length: be_u16_at(s, 2),
                                        id: be_u16_at(s, 4),
                                        flag,
                                        fragment_offset: (flags_offset % 8192) as u16,
                                        ttl: s[8],
                                        protocol,
                                        header_checksum: be_u16_at(s, 10),
                                        source: be_u32_at(s, 12),
                                        dest: be_u32_at(s, 16),
                                        options: spec_ip_options(s.subrange(20, 20 + opt_len)),
                                        payload,
                                    },
                                    (20 + opt_len + payload_len) as nat,
                                ),
                            ),
                        }
                    }
                }
            },
            _ => None,
        }
    }
}

/// How a packet reads its header fields. The flag is the top three bits of byte 6:
/// 0b000 Reserved, 0b001 MF, 0b010 DF; the fragment offset is the other thirteen bits of
/// bytes 6 and 7. The protocol is byte 9 (1 ICMP, 2 IGMP, 6 TCP, 17 UDP), and the
/// payload is the transport packet of that protocol. The other fields are big-endian,
/// and the options fill the header up to four times its length (byte 0's low bits). A
/// packet takes the bytes that its total length announces, or all of them where it is 0.
pub proof fn lemma_ipv4_header_fields(s: Seq<u8>)
    requires
        spec_parse_ipv4(s) is Some,
    ensures
        ({
            let p = spec_parse_ipv4(s).unwrap().0;
            &&& s.len() >= 20
            &&& (p.flag is Reserved <==> s[6] / 32 == 0)
            &&& (p.flag is MF <==> s[6] / 32 == 1)
            &&& (p.flag is DF <==> s[6] / 32 == 2)
            &&& p.fragment_offset == (s[6] % 32) * 256 + s[7]
            &&& (p.protocol is ICMP <==> s[9] == 1)
            &&& (p.protocol is IGMP <==> s[9] == 2)
            &&& (p.protocol is TCP <==> s[9] == 6)
            &&& (p.protocol is UDP <==> s[9] == 17)
            &&& (p.payload is ICMP <==> s[9] == 1)
            &&& (p.payload is IGMP <==> s[9] == 2)
            &&& (p.payload is TCP <==> s[9] == 6)
            &&& (p.payload is UDP <==> s[9] == 17)
            &&& p.ttl == s[8]
            &&& p.version == s[0] / 16
            &&& p.ihl == s[0] % 16
            &&& p.dscp == s[1] / 4
            &&& p.ecn == s[1] % 4
            &&& p.total_length == 256 * s[2] + s[3]
            &&& p.id == 256 * s[4] + s[5]
            &&& p.header_checksum == 256 * s[10] + s[11]
            &&& p.source == 16777216 * s[12] + 65536 * s[13] + 256 * s[14] + s[15]
            &&& p.dest == 16777216 * s[16] + 65536 * s[17] + 256 * s[18] + s[19]
            &&& p.options == spec_ip_options(
                s.subrange(20, if 4 * (s[0] % 16) > 20 { 4 * (s[0] % 16) } else { 20 }),
            )
            &&& p.total_length == 0 ==> spec_parse_ipv4(s).unwrap().1 == s.len()
            &&& 4 * p.ihl >= 20 && p.total_length >= 4 * p.ihl ==> spec_parse_ipv4(s).unwrap().1 == p.total_length
        }),
{
    lemma_be_at_two(s, 2);
    lemma_be_at_two(s, 4);
    lemma_be_at_two(s, 10);
    lemma_be_at_four(s, 12);
    lemma_be_at_four(s, 16);
    lemma_be_at_two(s, 6);
    let ff = be_at(s, 6, 2);
    assert(ff / 8192 == s[6] / 32 && ff % 8192 == (s[6] % 32) * 256 + s[7]) by (nonlinear_arith)
        requires
            ff == 256 * s[6] + s[7],
    ;
}

/// A packet whose flag bits are 0b011 or more, or whose protocol is not ICMP, IGMP, TCP
/// or UDP, is refused.
pub proof fn lemma_ipv4_refused(s: Seq<u8>)
    requires
        s.len() >= 20,
        s[6] / 32 >= 3 || !(s[9] == 1 || s[9] == 2 || s[9] == 6 || s[9] == 17),
    ensures
        spec_parse_ipv4(s) is None,
{
    lemma_be_at_two(s, 6);
    let ff = be_at(s, 6, 2);
    assert(ff / 8192 == s[6] / 32) by (nonlinear_arith)
        requires
            ff == 256 * s[6] + s[7],
    ;
}

fn parse_ip_options<'a>(data: &'a [u8]) -> (r: Vec<IpOption<'a>>)
    ensures
        ip_option_views(r@) == spec_ip_options(data@),
{
    let ghost all = data@;
    let mut data = data;
    let mut options: Vec<IpOption<'a>> = Vec::new();

    while !data.is_empty()
        invariant_except_break
            ip_option_views(options@) + spec_ip_options(data@) == spec_ip_options(all),
        ensures
            ip_option_views(options@) == spec_ip_options(all),
        decreases data@.len(),
    {
        let ghost before = options@;
        let kind = data[0];

        if kind == 0 {
            options.push(IpOption::EndOfList);
            proof {
                assert(ip_option_views(options@) =~= ip_option_views(before).push(SpecIpOption::EndOfList));
                assert(ip_option_views(options@) =~= ip_option_views(before) + spec_ip_options(data@));
            }
            break;
        }
        if kind == 1 {
            options.push(IpOption::NoOp);
            proof {
                assert(ip_option_views(options@) =~= ip_option_views(before).push(SpecIpOption::NoOp));
                assert(ip_option_views(before) + spec_ip_options(data@) =~= ip_option_views(options@)
                    + spec_ip_options(data@.skip(1)));
            }
            data = vstd::slice::slice_subrange(data, 1, data.len());
            continue;
        }

        if data.len() < 2 {
            proof {
                assert(ip_option_views(before) + spec_ip_options(data@) =~= ip_option_views(before));
            }
            break;
        }
        let len = data[1] as usize;
        if len < 2 || len > data.len() {
            proof {
                assert(ip_option_views(before) + spec_ip_options(data@) =~= ip_option_views(before));
            }
            break;
        }
        let value = vstd::slice::slice_subrange(data, 2, len);

        let option = match kind {
            7 => IpOption::RecordRoute(value),
            68 => IpOption::Timestamp(value),
            131 => IpOption::LooseSourceRoute(value),
            137 => IpOption::StrictSourceRoute(value),
            other => IpOption::Other { kind: other, data: value },
        };
        options.push(option);
        proof {
            assert(ip_option_views(options@) =~= ip_option_views(before).push(option@));
            assert(ip_option_views(before) + spec_ip_options(data@) =~= ip_option_views(options@)
                + spec_ip_options(data@.skip(len as int)));
        }
        data = vstd::slice::slice_subrange(data, len, data.len());
    }
    options
}

/// Parses an IPv4 payload as the transport packet of its protocol.
fn parse_ipv4_payload<'a>(protocol: &Protocol, cur: &mut Cursor<'a>) -> (r: Option<TransportPacket<'a>>)
    requires
        old(cur).in_bounds(),
    ensures
        match spec_ipv4_transport(*protocol, old(cur).rest()) {
            None => r is None,
            Some(p) => r matches Some(t) && t@ == p,
        },
{
    match protocol {
        Protocol::TCP => match try_parse_tcp(cur) {
            Some(p) => Some(TransportPacket::TCP(p)),
            None => None,
        },
        Protocol::UDP => match try_parse_udp(cur) {
            Some(p) => Some(TransportPacket::UDP(p)),
            None => None,
        },
        Protocol::ICMP => match try_parse_icmpv4(cur) {
            Some(p) => Some(TransportPacket::ICMP(p)),
            None => None,
        },
        Protocol::IGMP => match try_parse_igmp(cur) {
            Some(p) => Some(TransportPacket::IGMP(p)),
            None => None,
        },
        _ => None,
    }
}

#[verifier::rlimit(60)]
/// Reads an IPv4 packet; `None` exactly where `spec_parse_ipv4` has none.
pub(crate) fn try_parse_ipv4<'a>(cur: &mut Cursor<'a>) -> (r: Option<IPv4Packet<'a>>)
    requires
        old(cur).in_bounds(),
    ensures
        parse_outcome(r, spec_parse_ipv4(old(cur).rest()), *old(cur), *final(cur)),
{
    proof {
        cur.lemma_data_len();
        broadcast use lemma_skip_subrange, lemma_skip_skip;
    }
    let ghost s = cur.rest();
    if cur.remaining().len() < 20 {
        return None;
    }
    let version_ihl = cur.u8().unwrap();
    let version = version_ihl / 16;
    let ihl = version_ihl % 16;

    let dscp_ecn = cur.u8().unwrap();
    let dscp = dscp_ecn / 4;
    let ecn = dscp_ecn % 4;

    let total_length = cur.u16_be().unwrap();
    let id = cur.u16_be().unwrap();

    let flags_fragment_offset = cur.u16_be().unwrap();
    let flags_num = (flags_fragment_offset / 8192) as u8;
    let flag = match flags_num {
        0 => Flag::Reserved,
        1 => Flag::MF,
        2 => Flag::DF,
        _ => return None,
    };
    let fragment_offset = flags_fragment_offset % 8192;

    let ttl = cur.u8().unwrap();

    let protocol_num = cur.u8().unwrap();
    let protocol = match protocol_num {
        1 => Protocol::ICMP,
        2 => Protocol::IGMP,
        6 => Protocol::TCP,
        17 => Protocol::UDP,
        41 => Protocol::ENCAP,
        89 => Protocol::OSPF,
        132 => Protocol::SCTP,
        _ => return None,
    };

    let header_checksum = cur.u16_be().unwrap();
    let source = cur.u32_be().unwrap();
    let dest = cur.u32_be().unwrap();

    let header_len = ihl as usize * 4;
    let options_len = if header_len > 20 { header_len - 20 } else { 0 };
    let options = if options_len > 0 {
        if cur.remaining().len() < options_len {
            return None;
        }
        parse_ip_options(cur.bytes(options_len).unwrap())
    } else {
        proof {
            assert(s.subrange(20, 20) =~= Seq::<u8>::empty());
        }
        Vec::new()
    };

    let after_header = cur.remaining().len();
    let payload_len = if total_length == 0 {
        after_header
    } else if total_length as usize > header_len {
        total_length as usize - header_len
    } else {
        0
    };
    if after_header < payload_len {
        return None;
    }
    let ghost r = cur.rest();
    let mut payload_cur = Cursor::new(cur.bytes(payload_len).unwrap());
    proof {
        assert(payload_cur.rest() == r.take(payload_len as int));
    }
    let payload = match parse_ipv4_payload(&protocol, &mut payload_cur) {
        Some(p) => p,
        None => return None,
    };

    let ghost opt_len = ip_options_len(ihl as int);
    let ghost payload_len_spec = ipv4_payload_len(be_at(s, 2, 2) as int, ihl as int, s.skip(20 + opt_len).len() as int);
    assert(ihl == s[0] % 16);
    assert(r == s.skip(20 + opt_len));
    assert(payload_len == payload_len_spec);
    assert(spec_flag((be_at(s, 6, 2) / 8192) as int) == Some(flag));
    assert(spec_protocol(s[9]) == Some(protocol));
    assert(ip_option_views(options@) == spec_ip_options(s.subrange(20, 20 + opt_len)));
    assert(spec_ipv4_transport(protocol, r.take(payload_len as int)) == Some(payload@));
    assert(cur.position() == old(cur).position() + 20 + opt_len + payload_len);
    Some(
        IPv4Packet {
            version,
            ihl,
            dscp,
            ecn,
            total_length,
            id,
            flag,
            fragment_offset,
            ttl,
            protocol,
            header_checksum,
            source,
            dest,
            options,
            payload,
        },
    )
}

/// Reads an IPv4 packet; the bytes must hold one (see `spec_parse_ipv4`).
#[allow(dead_code)]
pub(crate) fn parse_ipv4<'a>(cur: &mut Cursor<'a>) -> (r: IPv4Packet<'a>)
    requires
        old(cur).in_bounds(),
        spec_parse_ipv4(old(cur).rest()) is Some,
    ensures
        parse_outcome(Some(r), spec_parse_ipv4(old(cur).rest()), *old(cur), *final(cur)),
{
    try_parse_ipv4(cur).unwrap()
}

} // verus!
