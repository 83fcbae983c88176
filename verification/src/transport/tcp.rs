//! TCP segments and their options.
use vstd::prelude::*;

use crate::byteorder::{be_at, be_value, lemma_be_at_four, lemma_be_at_two, lemma_pow256_values, lemma_skip_subrange, read_be};
use crate::pcap::cursor::{parse_outcome, Cursor};

verus! {

pub struct TCPPacket<'a> {
    pub source: u16,
    pub dest: u16,
    pub seq_num: u32,
    pub ack_num: u32,
    pub data_offset: u8,
    pub reserved: u8,
    pub flags: Flags,
    pub window: u16,
    pub checksum: u16,
    pub urgent_ptr: u16,
    pub options: Vec<TcpOption<'a>>,
    pub payload: &'a [u8],
}

#[derive(Debug)]
pub enum TcpOption<'a> {
    EndOfOptions,
    NoOp,
    MaxSegmentSize(u16),
    WindowScale(u8),
    SackPermitted,
    Sack(&'a [u8]),
    Timestamps { tsval: u32, tsecr: u32 },
    Other { kind: u8, data: &'a [u8] },
}

pub struct Flags {
    pub cwr: bool,
    pub ece: bool,
    pub urg: bool,
    pub ack: bool,
    pub psh: bool,
    pub rst: bool,
    pub syn: bool,
    pub fin: bool,
}

/// The value of a [`TcpOption`], its bytes taken as sequences.
pub enum SpecTcpOption {
    EndOfOptions,
    NoOp,
    MaxSegmentSize(u16),
    WindowScale(u8),
    SackPermitted,
    Sack(Seq<u8>),
    Timestamps { tsval: u32, tsecr: u32 },
    Other { kind: u8, data: Seq<u8> },
}

/// The value of a [`TCPPacket`].
pub struct SpecTCPPacket {
    pub source: u16,
    pub dest: u16,
    pub seq_num: u32,
    pub ack_num: u32,
    pub data_offset: u8,
    pub reserved: u8,
    pub flags: Flags,
    pub window: u16,
    pub checksum: u16,
    pub urgent_ptr: u16,
    pub options: Seq<SpecTcpOption>,
    pub payload: Seq<u8>,
}

impl<'a> View for TcpOption<'a> {
    type V = SpecTcpOption;

    open spec fn view(&self) -> SpecTcpOption {
        match self {
            TcpOption::EndOfOptions => SpecTcpOption::EndOfOptions,
            TcpOption::NoOp => SpecTcpOption::NoOp,
            TcpOption::MaxSegmentSize(v) => SpecTcpOption::MaxSegmentSize(*v),
            TcpOption::WindowScale(v) => SpecTcpOption::WindowScale(*v),
            TcpOption::SackPermitted => SpecTcpOption::SackPermitted,
            TcpOption::Sack(d) => SpecTcpOption::Sack(d@),
            TcpOption::Timestamps { tsval, tsecr } => SpecTcpOption::Timestamps {
                tsval: *tsval,
                tsecr: *tsecr,
            },
            TcpOption::Other { kind, data } => SpecTcpOption::Other { kind: *kind, data: data@ },
        }
    }
}

/// The values of a sequence of options.
pub open spec fn tcp_option_views<'a>(options: Seq<TcpOption<'a>>) -> Seq<SpecTcpOption> {
    options.map_values(|o: TcpOption<'a>| o@)
}

impl<'a> View for TCPPacket<'a> {
    type V = SpecTCPPacket;

    open spec fn view(&self) -> SpecTCPPacket {
        SpecTCPPacket {
            source: self.source,
            dest: self.dest,
            seq_num: self.seq_num,
            ack_num: self.ack_num,
            data_offset: self.data_offset,
            reserved: self.reserved,
            flags: self.flags,
            window: self.window,
            checksum: self.checksum,
            urgent_ptr: self.urgent_ptr,
            options: tcp_option_views(self.options@),
            payload: self.payload@,
        }
    }
}

/// The option of kind `kind` whose value (the bytes after kind and length) is `value`.
/// The options with a fixed size are recognised only with that size.
pub open spec fn spec_tcp_option(kind: u8, value: Seq<u8>) -> SpecTcpOption {
    if kind == 2 && value.len() == 2 {
        SpecTcpOption::MaxSegmentSize(be_value(value) as u16)
    } else if kind == 3 && value.len() == 1 {
        SpecTcpOption::WindowScale(value[0])
    } else if kind == 4 && value.len() == 0 {
        SpecTcpOption::SackPermitted
    } else if kind == 5 {
        SpecTcpOption::Sack(value)
    } else if kind == 8 && value.len() == 8 {
        SpecTcpOption::Timestamps { tsval: be_at(value, 0, 4) as u32, tsecr: be_at(value, 4, 4) as u32 }
    } else {
        SpecTcpOption::Other { kind, data: value }
    }
}

/// The options that `data` lists. Kinds 0 (end of list, which ends it) and 1 (no
/// operation) are one byte long; every other option is kind, length, value, where the
/// length counts all three. The list ends early at a length below 2 or past the end.
pub open spec fn spec_tcp_options(data: Seq<u8>) -> Seq<SpecTcpOption>
    decreases data.len(),
{
    if data.len() == 0 {
        Seq::empty()
    } else if data[0] == 0 {
        seq![SpecTcpOption::EndOfOptions]
    } else if data[0] == 1 {
        seq![SpecTcpOption::NoOp] + spec_tcp_options(data.skip(1))
    } else if data.len() < 2 || data[1] < 2 || data[1] > data.len() {
        Seq::empty()
    } else {
        seq![spec_tcp_option(data[0], data.subrange(2, data[1] as int))]
            + spec_tcp_options(data.skip(data[1] as int))
    }
}

/// The end-of-list option ends the list: it is the last option, if it occurs.
pub proof fn lemma_end_of_options_is_last(data: Seq<u8>)
    ensures
        forall|i: int|
            0 <= i < spec_tcp_options(data).len() - 1 ==> !(#[trigger] spec_tcp_options(data)[i] is EndOfOptions),
    decreases data.len(),
{
    if data.len() > 0 && data[0] != 0 {
        if data[0] == 1 {
            lemma_end_of_options_is_last(data.skip(1));
            assert forall|i: int| 0 <= i < spec_tcp_options(data).len() - 1 implies !(#[trigger] spec_tcp_options(data)[i] is EndOfOptions) by {
                if i > 0 {
                    assert(spec_tcp_options(data)[i] == spec_tcp_options(data.skip(1))[i - 1]);
                }
            }
        } else if !(data.len() < 2 || data[1] < 2 || data[1] > data.len()) {
            lemma_end_of_options_is_last(data.skip(data[1] as int));
            assert forall|i: int| 0 <= i < spec_tcp_options(data).len() - 1 implies !(#[trigger] spec_tcp_options(data)[i] is EndOfOptions) by {
                if i > 0 {
                    assert(spec_tcp_options(data)[i] == spec_tcp_options(data.skip(data[1] as int))[i - 1]);
                }
            }
        }
    }
}

/// How a list of options starts. Kind 0 ends the list; kind 1 is one byte of no
/// operation; any other kind is followed by a length byte counting kind, length and value.
/// Kind 2 with length 4 is the maximum segment size (a big-endian 16-bit value), kind 3
/// with length 3 the window scale, kind 4 with length 2 "SACK permitted", kind 5 a SACK
/// block list (the value as it is), kind 8 with length 10 the timestamps (two big-endian
/// 32-bit values); any other kind or length is kept as it is. A length below 2 or past
/// the end ends the list.
pub proof fn lemma_tcp_option_kinds(data: Seq<u8>)
    requires
        data.len() > 0,
    ensures
        data[0] == 0 ==> spec_tcp_options(data) == seq![SpecTcpOption::EndOfOptions],
        data[0] == 1 ==> spec_tcp_options(data) == seq![SpecTcpOption::NoOp] + spec_tcp_options(data.skip(1)),
        data[0] >= 2 && (data.len() < 2 || data[1] < 2 || data[1] > data.len()) ==> spec_tcp_options(data)
            == Seq::<SpecTcpOption>::empty(),
        data[0] >= 2 && data.len() >= 2 && 2 <= data[1] <= data.len() ==> {
            let o = spec_tcp_options(data)[0];
            let v = data.subrange(2, data[1] as int);
            &&& spec_tcp_options(data) == seq![o] + spec_tcp_options(data.skip(data[1] as int))
            &&& data[0] == 2 && data[1] == 4 ==> o == SpecTcpOption::MaxSegmentSize((256 * data[2] + data[3]) as u16)
            &&& data[0] == 3 && data[1] == 3 ==> o == SpecTcpOption::WindowScale(data[2])
            &&& data[0] == 4 && data[1] == 2 ==> o == SpecTcpOption::SackPermitted
            &&& data[0] == 5 ==> o == SpecTcpOption::Sack(v)
            &&& data[0] == 8 && data[1] == 10 ==> o == SpecTcpOption::Timestamps {
                tsval: (16777216 * data[2] + 65536 * data[3] + 256 * data[4] + data[5]) as u32,
                tsecr: (16777216 * data[6] + 65536 * data[7] + 256 * data[8] + data[9]) as u32,
            }
            &&& !(data[0] == 2 && data[1] == 4) && !(data[0] == 3 && data[1] == 3) && !(data[0] == 4 && data[1]
                == 2) && data[0] != 5 && !(data[0] == 8 && data[1] == 10) ==> o == SpecTcpOption::Other {
                kind: data[0],
                data: v,
            }
        },
{
    if data[0] >= 2 && data.len() >= 2 && 2 <= data[1] <= data.len() {
        let v = data.subrange(2, data[1] as int);
        if data[0] == 2 && data[1] == 4 {
            lemma_be_at_two(data, 2);
            assert(v =~= data.subrange(2, 4));
        }
        if data[0] == 8 && data[1] == 10 {
            lemma_be_at_four(data, 2);
            lemma_be_at_four(data, 6);
            assert(v.subrange(0, 4) =~= data.subrange(2, 6));
            assert(v.subrange(4, 8) =~= data.subrange(6, 10));
        }
    }
}

/// The flags of the 13th header byte, most significant bit first.
pub open spec fn spec_flags(b: u8) -> Flags {
    Flags {
        cwr: b & 0b1000_0000 != 0,
        ece: b & 0b0100_0000 != 0,
        urg: b & 0b0010_0000 != 0,
        ack: b & 0b0001_0000 != 0,
        psh: b & 0b0000_1000 != 0,
        rst: b & 0b0000_0100 != 0,
        syn: b & 0b0000_0010 != 0,
        fin: b & 0b0000_0001 != 0,
    }
}

/// Bit `k` of a byte, counted from the least significant, is set exactly when the mask
/// `2^k` shares it.
proof fn lemma_byte_bits(b: u8)
    by (bit_vector)
    ensures
        (b & 0b1000_0000 != 0) == (b / 128 % 2 == 1),
        (b & 0b0100_0000 != 0) == (b / 64 % 2 == 1),
        (b & 0b0010_0000 != 0) == (b / 32 % 2 == 1),
        (b & 0b0001_0000 != 0) == (b / 16 % 2 == 1),
        (b & 0b0000_1000 != 0) == (b / 8 % 2 == 1),
        (b & 0b0000_0100 != 0) == (b / 4 % 2 == 1),
        (b & 0b0000_0010 != 0) == (b / 2 % 2 == 1),
        (b & 0b0000_0001 != 0) == (b % 2 == 1),
{
}

/// How a segment reads its header: ports, sequence and acknowledgement numbers are
/// big-endian; the data offset is the top four bits of byte 12 and the options are the
/// bytes from 20 up to four times the data offset; the flags are the bits of byte 13,
/// most significant first: CWR, ECE, URG, ACK, PSH, RST, SYN, FIN.
pub proof fn lemma_tcp_header_fields(s: Seq<u8>)
    requires
        spec_parse_tcp(s) is Some,
    ensures
        ({
            let p = spec_parse_tcp(s).unwrap().0;
            let b = s[13];
            let header_end = if s[12] / 16 > 5 { 4 * (s[12] / 16) } else { 20 };
            &&& s.len() >= header_end
            &&& p.source == 256 * s[0] + s[1]
            &&& p.dest == 256 * s[2] + s[3]
            &&& p.seq_num == 16777216 * s[4] + 65536 * s[5] + 256 * s[6] + s[7]
            &&& p.ack_num == 16777216 * s[8] + 65536 * s[9] + 256 * s[10] + s[11]
            &&& p.data_offset == s[12] / 16
            &&& p.flags.cwr == (b / 128 % 2 == 1)
            &&& p.flags.ece == (b / 64 % 2 == 1)
            &&& p.flags.urg == (b / 32 % 2 == 1)
            &&& p.flags.ack == (b / 16 % 2 == 1)
            &&& p.flags.psh == (b / 8 % 2 == 1)
            &&& p.flags.rst == (b / 4 % 2 == 1)
            &&& p.flags.syn == (b / 2 % 2 == 1)
            &&& p.flags.fin == (b % 2 == 1)
            &&& p.window == 256 * s[14] + s[15]
            &&& p.options == spec_tcp_options(s.subrange(20, header_end as int))
            &&& p.payload == s.skip(header_end as int)
        }),
{
    lemma_byte_bits(s[13]);
    lemma_be_at_two(s, 0);
    lemma_be_at_two(s, 2);
    lemma_be_at_four(s, 4);
    lemma_be_at_four(s, 8);
    lemma_be_at_two(s, 14);
}

/// The number of option bytes that a data offset (in 32-bit words) announces.
pub open spec fn tcp_options_len(data_offset: int) -> int {
    if data_offset > 5 {
        (data_offset - 5) * 4
    } else {
        0
    }
}

/// A 20-byte header, the options that its data offset announces, then the payload:
/// all the rest. Only header and options count as read.
pub open spec fn spec_parse_tcp(s: Seq<u8>) -> Option<(SpecTCPPacket, nat)> {
    if s.len() < 20 {
        None
    } else {
        let data_offset = s[12] / 16;
        let opt_len = tcp_options_len(data_offset as int);
        if s.len() < 20 + opt_len {
            None
        } else {
            Some(
                (
                    SpecTCPPacket {
                        source: be_at(s, 0, 2) as u16,
                        dest: be_at(s, 2, 2) as u16,
                        seq_num: be_at(s, 4, 4) as u32,
                        ack_num: be_at(s, 8, 4) as u32,
                        data_offset: data_offset as u8,
                        reserved: 0,
                        flags: spec_flags(s[13]),
                        window: be_at(s, 14, 2) as u16,
                        checksum: be_at(s, 16, 2) as u16,
                        urgent_ptr: be_at(s, 18, 2) as u16,
                        options: spec_tcp_options(s.subrange(20, 20 + opt_len)),
                        payload: s.skip(20 + opt_len),
                    },
                    (20 + opt_len) as nat,
                ),
            )
        }
    }
}

fn parse_tcp_options<'a>(data: &'a [u8]) -> (r: Vec<TcpOption<'a>>)
    ensures
        tcp_option_views(r@) == spec_tcp_options(data@),
{
    let ghost all = data@;
    let mut data = data;
    let mut options: Vec<TcpOption<'a>> = Vec::new();

    while !data.is_empty()
        invariant_except_break
            tcp_option_views(options@) + spec_tcp_options(data@) == spec_tcp_options(all),
        ensures
            tcp_option_views(options@) == spec_tcp_options(all),
        decreases data@.len(),
    {
        let ghost before = options@;
        let kind = data[0];

        if kind == 0 {
            options.push(TcpOption::EndOfOptions);
            proof {
                assert(tcp_option_views(options@) =~= tcp_option_views(before).push(SpecTcpOption::EndOfOptions));
                assert(tcp_option_views(options@) =~= tcp_option_views(before) + spec_tcp_options(data@));
            }
            break;
        }
        if kind == 1 {
            options.push(TcpOption::NoOp);
            proof {
                assert(tcp_option_views(options@) =~= tcp_option_views(before).push(SpecTcpOption::NoOp));
                assert(tcp_option_views(before) + spec_tcp_options(data@) =~= tcp_option_views(options@)
                    + spec_tcp_options(data@.skip(1)));
            }
            data = vstd::slice::slice_subrange(data, 1, data.len());
            continue;
        }

        if data.len() < 2 {
            proof {
                assert(tcp_option_views(before) + spec_tcp_options(data@) =~= tcp_option_views(before));
            }
            break;
        }
        let len = data[1] as usize;
        if len < 2 || len > data.len() {
            proof {
                assert(tcp_option_views(before) + spec_tcp_options(data@) =~= tcp_option_views(before));
            }
            break;
        }
        let value = vstd::slice::slice_subrange(data, 2, len);

        let option = if kind == 2 && value.len() == 2 {
            let v = read_be(value);
            proof { lemma_pow256_values(); }
            TcpOption::MaxSegmentSize(v as u16)
        } else if kind == 3 && value.len() == 1 {
            TcpOption::WindowScale(value[0])
        } else if kind == 4 && value.len() == 0 {
            TcpOption::SackPermitted
        } else if kind == 5 {
            TcpOption::Sack(value)
        } else if kind == 8 && value.len() == 8 {
            let tsval = read_be(vstd::slice::slice_subrange(value, 0, 4));
            let tsecr = read_be(vstd::slice::slice_subrange(value, 4, 8));
            proof { lemma_pow256_values(); }
            TcpOption::Timestamps { tsval: tsval as u32, tsecr: tsecr as u32 }
        } else {
            TcpOption::Other { kind, data: value }
        };
        assert(option@ == spec_tcp_option(kind, data@.subrange(2, len as int)));
        options.push(option);
        proof {
            assert(tcp_option_views(options@) =~= tcp_option_views(before).push(option@));
            assert(tcp_option_views(before) + spec_tcp_options(data@) =~= tcp_option_views(options@)
                + spec_tcp_options(data@.skip(len as int)));
        }
        data = vstd::slice::slice_subrange(data, len, data.len());
    }
    options
}

/// Reads a TCP segment; `None` exactly where `spec_parse_tcp` has none.
pub(crate) fn try_parse_tcp<'a>(cur: &mut Cursor<'a>) -> (r: Option<TCPPacket<'a>>)
    requires
        old(cur).in_bounds(),
    ensures
        parse_outcome(r, spec_parse_tcp(old(cur).rest()), *old(cur), *final(cur)),
{
    proof {
        cur.lemma_data_len();
        broadcast use lemma_skip_subrange;
    }
    if cur.remaining().len() < 20 {
        return None;
    }
    let ghost s = cur.rest();
    let ghost p = cur.position();
    let source = cur.u16_be().unwrap();
    let dest = cur.u16_be().unwrap();
    let seq_num = cur.u32_be().unwrap();
    let reserved: u8 = 0;
    let ack_num = cur.u32_be().unwrap();
    let data_offset = cur.u8().unwrap() / 16;
    let flags_bits = cur.u8().unwrap();
    let flags = Flags {
        cwr: flags_bits & 0b1000_0000 != 0,
        ece: flags_bits & 0b0100_0000 != 0,
        urg: flags_bits & 0b0010_0000 != 0,
        ack: flags_bits & 0b0001_0000 != 0,
        psh: flags_bits & 0b0000_1000 != 0,
        rst: flags_bits & 0b0000_0100 != 0,
        syn: flags_bits & 0b0000_0010 != 0,
        fin: flags_bits & 0b0000_0001 != 0,
    };

    let window = cur.u16_be().unwrap();
    let checksum = cur.u16_be().unwrap();
    let urgent_ptr = cur.u16_be().unwrap();

    let options = if data_offset > 5 {
        let n = ((data_offset - 5) * 4) as usize;
        if cur.remaining().len() < n {
            return None;
        }
        parse_tcp_options(cur.bytes(n).unwrap())
    } else {
        proof {
            assert(s.subrange(20, 20) =~= Seq::<u8>::empty());
        }
        Vec::new()
    };

    let payload = cur.remaining();
    let ghost opt_len = tcp_options_len(data_offset as int);
    assert(payload@ == s.skip(20 + opt_len));
    assert(tcp_option_views(options@) == spec_tcp_options(s.subrange(20, 20 + opt_len)));
    Some(
        TCPPacket {
            source,
            dest,
            seq_num,
            ack_num,
            data_offset,
            reserved,
            flags,
            window,
            checksum,
            urgent_ptr,
            options,
            payload,
        },
    )
}

/// Reads a TCP segment; the bytes must hold one (see `spec_parse_tcp`).
#[allow(dead_code)]
pub(crate) fn parse_tcp<'a>(cur: &mut Cursor<'a>) -> (r: TCPPacket<'a>)
    requires
        old(cur).in_bounds(),
        spec_parse_tcp(old(cur).rest()) is Some,
    ensures
        parse_outcome(Some(r), spec_parse_tcp(old(cur).rest()), *old(cur), *final(cur)),
{
    try_parse_tcp(cur).unwrap()
}

} // verus!
