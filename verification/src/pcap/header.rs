//! The global header at the start of a pcap file.
use vstd::prelude::*;

use crate::byteorder::{be_value, le_value, lemma_be_at_four, lemma_be_at_two, lemma_le_four, lemma_le_two, lemma_skip_subrange, lemma_value_zero};
use crate::pcap::cursor::Cursor;

verus! {

/// The byte order of the numbers in a pcap file.
#[derive(Debug)]
pub enum Endianness {
    Little,
    Big,
}

/// The unit of the sub-second part of packet timestamps.
#[derive(Debug, Clone, Copy)]
pub enum TSecs {
    Micro,
    Nano,
}

/// The number that `s` encodes in byte order `e`.
pub open spec fn endian_value(e: Endianness, s: Seq<u8>) -> nat {
    match e {
        Endianness::Big => be_value(s),
        Endianness::Little => le_value(s),
    }
}


/// The global header of a pcap file.
#[derive(Debug)]
pub struct Header {
    pub endian: Option<Endianness>,
    pub tsec: Option<TSecs>,
    pub major_version: u16,
    pub minor_version: u16,
    pub snap_len: u32,
    pub fcs: u8,
    pub p: u8,
    pub r: u8,
    pub link_type: u16,
}

/// The byte order and timestamp unit that the four bytes of a magic number announce.
/// The number `0xA1B2C3D4` announces microseconds and `0xA1B23C4D` nanoseconds; the
/// order in which its bytes stand in the file is the order of the file's numbers.
pub open spec fn spec_detect(magic: Seq<u8>) -> Option<(Endianness, TSecs)> {
    if magic == seq![0xD4u8, 0xC3u8, 0xB2u8, 0xA1u8] {
        Some((Endianness::Little, TSecs::Micro))
    } else if magic == seq![0x4Du8, 0x3Cu8, 0xB2u8, 0xA1u8] {
        Some((Endianness::Little, TSecs::Nano))
    } else if magic == seq![0xA1u8, 0xB2u8, 0xC3u8, 0xD4u8] {
        Some((Endianness::Big, TSecs::Micro))
    } else if magic == seq![0xA1u8, 0xB2u8, 0x3Cu8, 0x4Du8] {
        Some((Endianness::Big, TSecs::Nano))
    } else {
        None
    }
}

/// The header that the first 24 bytes of `s` hold, or `None` where they hold none:
/// too few bytes, an unknown magic number, non-zero reserved fields, a non-zero `R`
/// field, or a frame check sequence length without the `P` bit.
///
/// The last four bytes pack the link type (low 16 bits), `R` (next 12 bits),
/// `P` (bit 28) and the frame check sequence length (top 3 bits).
pub open spec fn spec_parse_header(s: Seq<u8>) -> Option<Header> {
    if s.len() < 24 {
        None
    } else {
        match spec_detect(s.subrange(0, 4)) {
            None => None,
            Some((e, t)) => {
                let reserved = endian_value(e, s.subrange(8, 16));
                let info = endian_value(e, s.subrange(20, 24));
                let fcs = info / 0x2000_0000;
                let p = (info / 0x1000_0000) % 2;
                let r = (info / 0x1_0000) % 0x1000;
                if reserved != 0 || r != 0 || (fcs != 0 && p == 0) {
                    None
                } else {
                    Some(
                        Header {
                            endian: Some(e),
                            tsec: Some(t),
                            major_version: endian_value(e, s.subrange(4, 6)) as u16,
                            minor_version: endian_value(e, s.subrange(6, 8)) as u16,
                            snap_len: endian_value(e, s.subrange(16, 20)) as u32,
                            fcs: fcs as u8,
                            p: p as u8,
                            r: r as u8,
                            link_type: (info % 0x1_0000) as u16,
                        },
                    )
                }
            },
        }
    }
}

/// The magic number is the same number in either byte order: read in the byte order
/// that it announces, its four bytes give 0xA1B2C3D4 for microsecond timestamps and
/// 0xA1B23C4D for nanosecond ones.
pub proof fn lemma_magic_number_value(magic: Seq<u8>)
    requires
        spec_detect(magic) is Some,
    ensures
        ({
            let (e, t) = spec_detect(magic).unwrap();
            endian_value(e, magic) == match t {
                TSecs::Micro => 0xA1B2C3D4nat,
                TSecs::Nano => 0xA1B23C4Dnat,
            }
        }),
{
    reveal_with_fuel(be_value, 5);
    reveal_with_fuel(le_value, 5);
    let (e, t) = spec_detect(magic).unwrap();
    assert(magic.len() == 4);
    assert(magic.drop_last().drop_last().drop_last().drop_last() =~= Seq::<u8>::empty());
    assert(magic.drop_first().drop_first().drop_first().drop_first() =~= Seq::<u8>::empty());
}

/// Both byte orders are announced for each timestamp unit: the bytes of a magic number
/// reversed are a magic number of the other byte order and the same unit.
pub proof fn lemma_magic_number_reversed(magic: Seq<u8>)
    requires
        spec_detect(magic) is Some,
    ensures
        ({
            let (e, t) = spec_detect(magic).unwrap();
            let (e2, t2) = spec_detect(magic.reverse()).unwrap();
            &&& spec_detect(magic.reverse()) is Some
            &&& t2 == t
            &&& e2 != e
        }),
{
    let r = magic.reverse();
    assert(magic.len() == 4);
    if magic == seq![0xD4u8, 0xC3u8, 0xB2u8, 0xA1u8] {
        assert(r =~= seq![0xA1u8, 0xB2u8, 0xC3u8, 0xD4u8]);
    } else if magic == seq![0x4Du8, 0x3Cu8, 0xB2u8, 0xA1u8] {
        assert(r =~= seq![0xA1u8, 0xB2u8, 0x3Cu8, 0x4Du8]);
    } else if magic == seq![0xA1u8, 0xB2u8, 0xC3u8, 0xD4u8] {
        assert(r =~= seq![0xD4u8, 0xC3u8, 0xB2u8, 0xA1u8]);
    } else {
        assert(r =~= seq![0x4Du8, 0x3Cu8, 0xB2u8, 0xA1u8]);
    }
}

/// A header that parses has zero reserved bytes (8 to 15), a zero `R` field, a frame
/// check sequence length only with the `P` bit set, and the byte order and timestamp unit
/// that its magic number announces.
pub proof fn lemma_parsed_header_fields(s: Seq<u8>)
    requires
        spec_parse_header(s) is Some,
    ensures
        ({
            let h = spec_parse_header(s).unwrap();
            &&& h.r == 0
            &&& h.fcs < 8 && h.p < 2
            &&& h.fcs != 0 ==> h.p == 1
            &&& spec_detect(s.subrange(0, 4)) == Some((h.endian.unwrap(), h.tsec.unwrap()))
            &&& forall|i: int| 8 <= i < 16 ==> #[trigger] s[i] == 0
        }),
{
    lemma_value_zero(s.subrange(8, 16));
    assert forall|i: int| 8 <= i < 16 implies #[trigger] s[i] == 0 by {
        assert(s[i] == s.subrange(8, 16)[i - 8]);
    }
    let (e, t) = spec_detect(s.subrange(0, 4)).unwrap();
    let info = endian_value(e, s.subrange(20, 24));
    lemma_endian_value_bound(e, s.subrange(20, 24));
    crate::byteorder::lemma_pow256_values();
}

/// Where the header's fields stand, in the file's byte order: the major version is
/// bytes 4-5, the minor version bytes 6-7, the snapshot length bytes 16-19, and the link
/// type the low 16 bits of bytes 20-23, which are bytes 20-21 (least significant first) in
/// a little-endian file and bytes 22-23 (most significant first) in a big-endian one. The
/// most significant byte of those four carries the frame check sequence length in its
/// top three bits and the `P` bit below them.
pub proof fn lemma_header_field_bytes(s: Seq<u8>)
    requires
        spec_parse_header(s) is Some,
    ensures
        ({
            let h = spec_parse_header(s).unwrap();
            &&& h.endian.unwrap() is Little ==> {
                &&& h.major_version == s[4] + 256 * s[5]
                &&& h.minor_version == s[6] + 256 * s[7]
                &&& h.snap_len == s[16] + 256 * s[17] + 65536 * s[18] + 16777216 * s[19]
                &&& h.link_type == s[20] + 256 * s[21]
                &&& h.fcs == s[23] / 32
                &&& h.p == s[23] / 16 % 2
            }
            &&& h.endian.unwrap() is Big ==> {
                &&& h.major_version == 256 * s[4] + s[5]
                &&& h.minor_version == 256 * s[6] + s[7]
                &&& h.snap_len == 16777216 * s[16] + 65536 * s[17] + 256 * s[18] + s[19]
                &&& h.link_type == 256 * s[22] + s[23]
                &&& h.fcs == s[20] / 32
                &&& h.p == s[20] / 16 % 2
            }
        }),
{
    let (e, t) = spec_detect(s.subrange(0, 4)).unwrap();
    let info = endian_value(e, s.subrange(20, 24));
    match e {
        Endianness::Little => {
            lemma_le_two(s.subrange(4, 6));
            lemma_le_two(s.subrange(6, 8));
            lemma_le_four(s.subrange(16, 20));
            lemma_le_four(s.subrange(20, 24));
            let (a, b, c, d) = (s[20] as int, s[21] as int, s[22] as int, s[23] as int);
            assert(info % 0x1_0000 == a + 256 * b && info / 0x2000_0000 == d / 32 && (info / 0x1000_0000) % 2 == d / 16
                % 2) by (nonlinear_arith)
                requires
                    info == a + 256 * b + 65536 * c + 16777216 * d,
                    0 <= a < 256,
                    0 <= b < 256,
                    0 <= c < 256,
                    0 <= d < 256,
            ;
        },
        Endianness::Big => {
            lemma_be_at_two(s, 4);
            lemma_be_at_two(s, 6);
            lemma_be_at_four(s, 16);
            lemma_be_at_four(s, 20);
            let (a, b, c, d) = (s[20] as int, s[21] as int, s[22] as int, s[23] as int);
            assert(info % 0x1_0000 == 256 * c + d && info / 0x2000_0000 == a / 32 && (info / 0x1000_0000) % 2 == a / 16
                % 2) by (nonlinear_arith)
                requires
                    info == 16777216 * a + 65536 * b + 256 * c + d,
                    0 <= a < 256,
                    0 <= b < 256,
                    0 <= c < 256,
                    0 <= d < 256,
            ;
        },
    }
}

/// `n` bytes in either order hold no number as large as `256^n`.
pub proof fn lemma_endian_value_bound(e: Endianness, s: Seq<u8>)
    ensures
        endian_value(e, s) < crate::byteorder::pow256(s.len()),
{
    crate::byteorder::lemma_be_value_bound(s);
    crate::byteorder::lemma_le_value_bound(s);
}

fn detect(magic_word: &[u8]) -> (r: Option<(Endianness, TSecs)>)
    ensures
        r == spec_detect(magic_word@),
{
    let m = magic_word;
    let ghost w = magic_word@;
    if m.len() != 4 {
        proof {
            assert(w != seq![0xD4u8, 0xC3u8, 0xB2u8, 0xA1u8]);
            assert(w != seq![0x4Du8, 0x3Cu8, 0xB2u8, 0xA1u8]);
            assert(w != seq![0xA1u8, 0xB2u8, 0xC3u8, 0xD4u8]);
            assert(w != seq![0xA1u8, 0xB2u8, 0x3Cu8, 0x4Du8]);
        }
        return None;
    }
    let (a, b, c, d) = (m[0], m[1], m[2], m[3]);
    proof {
        assert(w == seq![a, b, c, d]);
    }
    if a == 0xD4 && b == 0xC3 && c == 0xB2 && d == 0xA1 {
        Some((Endianness::Little, TSecs::Micro))
    } else if a == 0x4D && b == 0x3C && c == 0xB2 && d == 0xA1 {
        Some((Endianness::Little, TSecs::Nano))
    } else if a == 0xA1 && b == 0xB2 && c == 0xC3 && d == 0xD4 {
        Some((Endianness::Big, TSecs::Micro))
    } else if a == 0xA1 && b == 0xB2 && c == 0x3C && d == 0x4D {
        Some((Endianness::Big, TSecs::Nano))
    } else {
        proof {
            let s1 = seq![0xD4u8, 0xC3u8, 0xB2u8, 0xA1u8];
            let s2 = seq![0x4Du8, 0x3Cu8, 0xB2u8, 0xA1u8];
            let s3 = seq![0xA1u8, 0xB2u8, 0xC3u8, 0xD4u8];
            let s4 = seq![0xA1u8, 0xB2u8, 0x3Cu8, 0x4Du8];
            assert(w != s1 && w != s2 && w != s3 && w != s4) by {
                if w == s1 { assert(w[0] == s1[0] && w[1] == s1[1] && w[2] == s1[2] && w[3] == s1[3]); }
                if w == s2 { assert(w[0] == s2[0] && w[1] == s2[1] && w[2] == s2[2] && w[3] == s2[3]); }
                if w == s3 { assert(w[0] == s3[0] && w[1] == s3[1] && w[2] == s3[2] && w[3] == s3[3]); }
                if w == s4 { assert(w[0] == s4[0] && w[1] == s4[1] && w[2] == s4[2] && w[3] == s4[3]); }
            }
        }
        None
    }
}

/// Reads the global header: 24 bytes, after which the cursor reads in the file's byte order.
/// `None` exactly where the bytes hold no valid header (see `spec_parse_header`).
pub(crate) fn try_parse_header(header_bytes: &mut Cursor) -> (r: Option<Header>)
    requires
        old(header_bytes).in_bounds(),
    ensures
        final(header_bytes).data() == old(header_bytes).data(),
        r == spec_parse_header(old(header_bytes).rest()),
        r matches Some(h) ==> {
            &&& final(header_bytes).position() == old(header_bytes).position() + 24
            &&& final(header_bytes).byte_order() == h.endian
        },
{
    let ghost s = header_bytes.rest();
    let ghost p = header_bytes.position();
    proof {
        header_bytes.lemma_data_len();
        broadcast use lemma_skip_subrange;
    }
    if header_bytes.remaining().len() < 24 {
        return None;
    }
    let magic_bytes = header_bytes.bytes(4).unwrap();
    let magic_number = match detect(magic_bytes) {
        Some(m) => m,
        None => return None,
    };
    header_bytes.set_endianness(&magic_number.0);

    let major_version = header_bytes.u16().unwrap();
    let minor_version = header_bytes.u16().unwrap();
    let reserved = header_bytes.u64().unwrap();
    let snap_len = header_bytes.u32().unwrap();

    let link_type_plus_info = header_bytes.u32().unwrap();
    let fcs = link_type_plus_info / 0x2000_0000;
    let p = (link_type_plus_info / 0x1000_0000) % 2;
    let r = (link_type_plus_info / 0x1_0000) % 0x1000;
    let link_type = (link_type_plus_info % 0x1_0000) as u16;

    if reserved != 0 {
        return None;
    }
    if r != 0 || (fcs != 0 && p == 0) {
        return None;
    }
    Some(
        Header {
            endian: Some(magic_number.0),
            tsec: Some(magic_number.1),
            major_version,
            minor_version,
            snap_len,
            fcs: fcs as u8,
            p: p as u8,
            r: r as u8,
            link_type,
        },
    )
}

/// Reads the global header, which the bytes must hold (see `spec_parse_header`): 24 bytes,
/// after which the cursor reads in the file's byte order.
pub(crate) fn parse_header(header_bytes: &mut Cursor) -> (r: Header)
    requires
        old(header_bytes).in_bounds(),
        spec_parse_header(old(header_bytes).rest()) is Some,
    ensures
        final(header_bytes).data() == old(header_bytes).data(),
        r == spec_parse_header(old(header_bytes).rest()).unwrap(),
        final(header_bytes).position() == old(header_bytes).position() + 24,
        final(header_bytes).byte_order() == r.endian,
{
    try_parse_header(header_bytes).unwrap()
}

} // verus!
