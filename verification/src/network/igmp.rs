//! IGMP messages: version 1 and 2 messages, version 3 queries and version 3 reports.
use vstd::prelude::*;

use crate::byteorder::{be_at, be_u16_at, be_u32_at, lemma_be_at_four, lemma_be_at_two, lemma_skip_skip, lemma_skip_subrange};
use crate::network::igmp_types::{describe, spec_name_of_type};
use crate::pcap::cursor::{parse_outcome, Cursor};

verus! {

pub enum IGMP<'a> {
    V1V2 { igmp_type: u8, max_resp_time: u8, checksum: u16, group_address: u32 },
    V3Query(IGMPv3Query),
    V3Report(IGMPv3Report<'a>),
}

pub struct IGMPv3Query {
    /// Decoded, in tenths of a second.
    pub max_resp_time: u32,
    pub checksum: u16,
    pub group_address: u32,
    pub suppress_router_side_processing: bool,
    pub qrv: u8,
    /// Decoded, in seconds.
    pub qqic: u32,
    pub sources: Vec<u32>,
}

pub struct IGMPv3Report<'a> {
    pub checksum: u16,
    pub group_records: Vec<GroupRecord<'a>>,
}

pub struct GroupRecord<'a> {
    pub record_type: u8,
    pub multicast_address: u32,
    pub sources: Vec<u32>,
    pub aux_data: &'a [u8],
}

/// The value of an [`IGMPv3Query`].
pub struct SpecIGMPv3Query {
    pub max_resp_time: u32,
    pub checksum: u16,
    pub group_address: u32,
    pub suppress_router_side_processing: bool,
    pub qrv: u8,
    pub qqic: u32,
    pub sources: Seq<u32>,
}

/// The value of a [`GroupRecord`].
pub struct SpecGroupRecord {
    pub record_type: u8,
    pub multicast_address: u32,
    pub sources: Seq<u32>,
    pub aux_data: Seq<u8>,
}

/// The value of an [`IGMPv3Report`].
pub struct SpecIGMPv3Report {
    pub checksum: u16,
    pub group_records: Seq<SpecGroupRecord>,
}

/// The value of an [`IGMP`] message.
pub enum SpecIGMP {
    V1V2 { igmp_type: u8, max_resp_time: u8, checksum: u16, group_address: u32 },
    V3Query(SpecIGMPv3Query),
    V3Report(SpecIGMPv3Report),
}

impl View for IGMPv3Query {
    type V = SpecIGMPv3Query;

    open spec fn view(&self) -> SpecIGMPv3Query {
        SpecIGMPv3Query {
            max_resp_time: self.max_resp_time,
            checksum: self.checksum,
            group_address: self.group_address,
            suppress_router_side_processing: self.suppress_router_side_processing,
            qrv: self.qrv,
            qqic: self.qqic,
            sources: self.sources@,
        }
    }
}

impl<'a> View for GroupRecord<'a> {
    type V = SpecGroupRecord;

    open spec fn view(&self) -> SpecGroupRecord {
        SpecGroupRecord {
            record_type: self.record_type,
            multicast_address: self.multicast_address,
            sources: self.sources@,
            aux_data: self.aux_data@,
        }
    }
}

/// The values of a sequence of group records.
pub open spec fn group_record_views<'a>(records: Seq<GroupRecord<'a>>) -> Seq<SpecGroupRecord> {
    records.map_values(|g: GroupRecord<'a>| g@)
}

impl<'a> View for IGMPv3Report<'a> {
    type V = SpecIGMPv3Report;

    open spec fn view(&self) -> SpecIGMPv3Report {
        SpecIGMPv3Report { checksum: self.checksum, group_records: group_record_views(self.group_records@) }
    }
}

impl<'a> View for IGMP<'a> {
    type V = SpecIGMP;

    open spec fn view(&self) -> SpecIGMP {
        match self {
            IGMP::V1V2 { igmp_type, max_resp_time, checksum, group_address } => SpecIGMP::V1V2 {
                igmp_type: *igmp_type,
                max_resp_time: *max_resp_time,
                checksum: *checksum,
                group_address: *group_address,
            },
            IGMP::V3Query(q) => SpecIGMP::V3Query(q@),
            IGMP::V3Report(r) => SpecIGMP::V3Report(r@),
        }
    }
}

/// The type that a message stands for: a version 3 query is a membership query
/// (0x11) and a version 3 report a version 3 membership report (0x22).
pub open spec fn spec_message_type(m: SpecIGMP) -> u8 {
    match m {
        SpecIGMP::V1V2 { igmp_type, .. } => igmp_type,
        SpecIGMP::V3Query(_) => 0x11,
        SpecIGMP::V3Report(_) => 0x22,
    }
}

impl<'a> IGMP<'a> {
    /// The name of the message's type.
    pub fn to_string(&self) -> (r: String)
        ensures
            r@ == spec_name_of_type(spec_message_type(self@)),
    {
        match self {
            IGMP::V1V2 { igmp_type, .. } => describe(*igmp_type),
            IGMP::V3Query(_) => describe(0x11),
            IGMP::V3Report(_) => describe(0x22),
        }
    }
}

/// The value of a "floating point" Max Resp Code or QQIC byte (RFC 3376, 4.1.1 and
/// 4.1.7): a byte below 128 is its own value; from 128 on, bits 4 to 6 are an exponent
/// `e` and bits 0 to 3 a mantissa `m`, and the value is `(m + 16) * 2^(e + 3)`.
pub open spec fn spec_decode_float_code(code: u8) -> nat {
    if code < 128 {
        code as nat
    } else {
        ((code % 16) + 16) as nat * vstd::arithmetic::power2::pow2(((code / 16) % 8 + 3) as nat)
    }
}

/// The largest value a code stands for, that of 0xFF: `(15 + 16) * 2^(7 + 3)`.
pub proof fn lemma_decode_float_code_bound(code: u8)
    ensures
        spec_decode_float_code(code) <= 31744,
{
    vstd::arithmetic::power2::lemma2_to64();
    if code >= 128 {
        let e = (code / 16) % 8;
        assert(vstd::arithmetic::power2::pow2((e + 3) as nat) <= 1024);
        assert(spec_decode_float_code(code) <= 31744) by (nonlinear_arith)
            requires
                spec_decode_float_code(code) == ((code % 16) + 16) as nat * vstd::arithmetic::power2::pow2((e + 3) as nat),
                code % 16 < 16,
                vstd::arithmetic::power2::pow2((e + 3) as nat) <= 1024,
        {
        }
    }
}

/// The encoding keeps every value below 128 as it is and spends the codes from 128 on
/// larger values only, up to 31744: each code stands for a larger value than every
/// smaller code.
pub proof fn lemma_decode_float_code_increasing(a: u8, b: u8)
    requires
        a < b,
    ensures
        a < 128 ==> spec_decode_float_code(a) == a,
        b < 128 ==> spec_decode_float_code(b) == b,
        b >= 128 ==> spec_decode_float_code(b) >= 128,
        spec_decode_float_code(a) < spec_decode_float_code(b),
        spec_decode_float_code(b) <= 31744,
    decreases b - a,
{
    lemma_decode_float_code_bound(b);
    vstd::arithmetic::power2::lemma2_to64();
    if a + 1 < b {
        lemma_decode_float_code_increasing(a, (b - 1) as u8);
        lemma_decode_float_code_increasing((b - 1) as u8, b);
    } else {
        let ea = (a / 16) % 8;
        let eb = (b / 16) % 8;
        if a >= 128 {
            if a % 16 == 15 {
                assert(eb == ea + 1 && b % 16 == 0);
            } else {
                assert(eb == ea && b % 16 == a % 16 + 1);
            }
            assert(spec_decode_float_code(a) < spec_decode_float_code(b)) by (nonlinear_arith)
                requires
                    ea == 0 ==> eb <= 1,
                    spec_decode_float_code(a) == ((a % 16) + 16) as nat * vstd::arithmetic::power2::pow2((ea + 3) as nat),
                    spec_decode_float_code(b) == ((b % 16) + 16) as nat * vstd::arithmetic::power2::pow2((eb + 3) as nat),
                    (a % 16 == 15 && eb == ea + 1 && b % 16 == 0) || (a % 16 < 15 && eb == ea && b % 16 == a % 16 + 1),
                    vstd::arithmetic::power2::pow2((eb + 3) as nat) == (if eb == ea { 1int } else { 2int }) * vstd::arithmetic::power2::pow2((ea + 3) as nat),
                    vstd::arithmetic::power2::pow2((ea + 3) as nat) > 0,
            {
            }
        }
        if b >= 128 {
            assert(vstd::arithmetic::power2::pow2((eb + 3) as nat) >= 8);
            assert(spec_decode_float_code(b) >= 128) by (nonlinear_arith)
                requires
                    spec_decode_float_code(b) == ((b % 16) + 16) as nat * vstd::arithmetic::power2::pow2((eb + 3) as nat),
                    vstd::arithmetic::power2::pow2((eb + 3) as nat) >= 8,
            {
            }
        }
    }
}

fn decode_float_code(code: u8) -> (r: u32)
    ensures
        r == spec_decode_float_code(code),
{
    if code < 128 {
        code as u32
    } else {
        let exp = (code / 16) % 8;
        let mant = (code % 16) as u32;
        proof {
            assert(mant < 16 ==> mant | 0x10 == mant + 16) by (bit_vector);
            vstd::arithmetic::power2::lemma2_to64();
            assert(vstd::arithmetic::power2::pow2((exp + 3) as nat) <= 1024);
            assert((mant + 16) * vstd::arithmetic::power2::pow2((exp + 3) as nat) <= 31 * 1024)
                by (nonlinear_arith)
                requires
                    mant < 16,
                    vstd::arithmetic::power2::pow2((exp + 3) as nat) <= 1024,
            ;
            vstd::bits::lemma_u32_shl_is_mul(mant | 0x10, (exp + 3) as u32);
        }
        (mant | 0x10) << (exp + 3) as u32
    }
}

/// `n` big-endian 32-bit numbers, one after the other, from the start of `s`.
pub open spec fn be_words(s: Seq<u8>, n: nat) -> Seq<u32> {
    Seq::new(n, |i: int| be_u32_at(s, 4 * i))
}

/// Each of the `n` words is four bytes, most significant first, the `i`-th at offset `4 * i`.
pub proof fn lemma_be_words_bytes(s: Seq<u8>, n: nat)
    requires
        s.len() >= 4 * n,
    ensures
        be_words(s, n).len() == n,
        forall|i: int|
            0 <= i < n ==> #[trigger] be_words(s, n)[i] == 16777216 * s[4 * i] + 65536 * s[4 * i + 1] + 256 * s[4
                * i + 2] + s[4 * i + 3],
{
    assert forall|i: int| 0 <= i < n implies #[trigger] be_words(s, n)[i] == 16777216 * s[4 * i] + 65536 * s[4 * i
        + 1] + 256 * s[4 * i + 2] + s[4 * i + 3] by {
        lemma_be_at_four(s, 4 * i);
    }
}

/// The rest of a version 3 query after its first 8 bytes (whose fields are given):
/// the S flag (bit 3) and QRV (bits 0 to 2) byte, the QQIC byte, a big-endian count of
/// sources, then that many 32-bit source addresses.
pub open spec fn spec_parse_v3_query(q: Seq<u8>, max_resp_code: u8, checksum: u16, group_address: u32) -> Option<(SpecIGMPv3Query, nat)> {
    if q.len() < 4 {
        None
    } else {
        let n = be_at(q, 2, 2);
        if q.len() < 4 + 4 * n {
            None
        } else {
            Some(
                (
                    SpecIGMPv3Query {
                        max_resp_time: spec_decode_float_code(max_resp_code) as u32,
                        checksum,
                        group_address,
                        suppress_router_side_processing: (q[0] / 8) % 2 == 1,
                        qrv: q[0] % 8,
                        qqic: spec_decode_float_code(q[1]) as u32,
                        sources: be_words(q.skip(4), n),
                    },
                    (4 + 4 * n) as nat,
                ),
            )
        }
    }
}

/// Reads `n` big-endian 32-bit numbers.
fn read_words(cur: &mut Cursor, n: u16) -> (r: Vec<u32>)
    requires
        old(cur).in_bounds(),
        old(cur).can_read(4 * n),
    ensures
        final(cur).moved_from(*old(cur), 4 * n),
        r@ == be_words(old(cur).rest(), n as nat),
{
    proof {
        cur.lemma_data_len();
        broadcast use lemma_skip_subrange;
    }
    let ghost s = cur.rest();
    let ghost p = cur.position();
    let mut sources = Vec::with_capacity(n as usize);
    let mut i: u16 = 0;
    while i < n
        invariant
            0 <= i <= n,
            cur.moved_from(*old(cur), 4 * i),
            s == old(cur).rest(),
            p == old(cur).position(),
            old(cur).can_read(4 * n),
            old(cur).in_bounds(),
            cur.data().len() <= usize::MAX,
            sources@ == be_words(s, i as nat),
        decreases n - i,
    {
        let v = cur.u32_be().unwrap();
        proof {
            assert(cur.data().subrange(p + 4 * i, p + 4 * i + 4) == s.subrange(4 * i, 4 * i + 4));
        }
        sources.push(v);
        i = i + 1;
        proof {
            assert(sources@ =~= be_words(s, i as nat));
        }
    }
    sources
}

fn parse_v3_query(
    cur: &mut Cursor,
    max_resp_code: u8,
    checksum: u16,
    group_address: u32,
) -> (r: Option<IGMPv3Query>)
    requires
        old(cur).in_bounds(),
    ensures
        parse_outcome(r, spec_parse_v3_query(old(cur).rest(), max_resp_code, checksum, group_address), *old(cur), *final(cur)),
{
    proof {
        cur.lemma_data_len();
        broadcast use lemma_skip_subrange, lemma_skip_skip;
    }
    let ghost q = cur.rest();
    if cur.remaining().len() < 4 {
        return None;
    }
    let s_qrv = cur.u8().unwrap();
    let suppress_router_side_processing = (s_qrv / 8) % 2 == 1;
    let qrv = s_qrv % 8;
    let qqic = cur.u8().unwrap();
    let num_sources = cur.u16_be().unwrap();

    if cur.remaining().len() < 4 * (num_sources as usize) {
        return None;
    }
    let sources = read_words(cur, num_sources);

    Some(
        IGMPv3Query {
            max_resp_time: decode_float_code(max_resp_code),
            checksum,
            group_address,
            suppress_router_side_processing,
            qrv,
            qqic: decode_float_code(qqic),
            sources,
        },
    )
}


/// A group record: record type, auxiliary data length (in 32-bit words), a big-endian
/// count of sources, the multicast address, the sources, then the auxiliary data.
pub open spec fn spec_parse_group_record(r: Seq<u8>) -> Option<(SpecGroupRecord, nat)> {
    if r.len() < 8 {
        None
    } else {
        let n = be_at(r, 2, 2);
        let aux_len: int = 4 * r[1];
        if r.len() < 8 + 4 * n + aux_len {
            None
        } else {
            Some(
                (
                    SpecGroupRecord {
                        record_type: r[0],
                        multicast_address: be_u32_at(r, 4),
                        sources: be_words(r.skip(8), n),
                        aux_data: r.subrange(8 + 4 * n as int, 8 + 4 * n + aux_len),
                    },
                    (8 + 4 * n + aux_len) as nat,
                ),
            )
        }
    }
}

/// How a group record reads its bytes: the record type is byte 0, the auxiliary data
/// length (in 32-bit words) byte 1, the count of sources bytes 2-3 and the multicast
/// address bytes 4-7, big-endian; then come the sources, four bytes each, and the
/// auxiliary data, and the record takes all of them.
pub proof fn lemma_group_record_fields(r: Seq<u8>)
    requires
        spec_parse_group_record(r) is Some,
    ensures
        ({
            let (g, size) = spec_parse_group_record(r).unwrap();
            let n = 256 * r[2] + r[3];
            &&& size == 8 + 4 * n + 4 * r[1]
            &&& r.len() >= size
            &&& g.record_type == r[0]
            &&& g.multicast_address == 16777216 * r[4] + 65536 * r[5] + 256 * r[6] + r[7]
            &&& g.sources.len() == n
            &&& forall|i: int|
                0 <= i < n ==> #[trigger] g.sources[i] == 16777216 * r[8 + 4 * i] + 65536 * r[9 + 4 * i] + 256 * r[10
                    + 4 * i] + r[11 + 4 * i]
            &&& g.aux_data == r.subrange(8 + 4 * n, size as int)
        }),
{
    lemma_be_at_two(r, 2);
    lemma_be_at_four(r, 4);
    let n = be_at(r, 2, 2);
    lemma_be_words_bytes(r.skip(8), n);
}

/// `n` group records, one after the other, and the number of bytes they take.
pub open spec fn spec_group_records(s: Seq<u8>, n: nat) -> Option<(Seq<SpecGroupRecord>, nat)>
    decreases n,
{
    if n == 0 {
        Some((Seq::empty(), 0))
    } else {
        match spec_parse_group_record(s) {
            None => None,
            Some((g, c)) => {
                if c > s.len() {
                    None
                } else {
                    match spec_group_records(s.skip(c as int), (n - 1) as nat) {
                        None => None,
                        Some((gs, c2)) => Some((seq![g] + gs, c + c2)),
                    }
                }
            },
        }
    }
}

/// The rest of a version 3 report after its type byte: a reserved byte, the checksum,
/// two reserved bytes, a big-endian count of group records, then the records.
pub open spec fn spec_parse_v3_report(s: Seq<u8>) -> Option<(SpecIGMPv3Report, nat)> {
    if s.len() < 7 {
        None
    } else {
        match spec_group_records(s.skip(7), be_at(s, 5, 2)) {
            None => None,
            Some((records, c)) => Some(
                (SpecIGMPv3Report { checksum: be_u16_at(s, 1), group_records: records }, 7 + c),
            ),
        }
    }
}

/// An IGMP message, by its type byte: 0x22 a version 3 report; 0x11 a membership query,
/// of version 3 where bytes follow its first 8; 0x12, 0x16 and 0x17 version 1 and 2
/// messages of 8 bytes. Other types are not parsed.
pub open spec fn spec_parse_igmp(s: Seq<u8>) -> Option<(SpecIGMP, nat)> {
    if s.len() < 1 {
        None
    } else if s[0] == 0x22 {
        match spec_parse_v3_report(s.skip(1)) {
            None => None,
            Some((r, c)) => Some((SpecIGMP::V3Report(r), 1 + c)),
        }
    } else if s[0] == 0x11 || s[0] == 0x12 || s[0] == 0x16 || s[0] == 0x17 {
        if s.len() < 8 {
            None
        } else if s[0] == 0x11 && s.len() > 8 {
            match spec_parse_v3_query(s.skip(8), s[1], be_u16_at(s, 2), be_u32_at(s, 4)) {
                None => None,
                Some((q, c)) => Some((SpecIGMP::V3Query(q), 8 + c)),
            }
        } else {
            Some(
                (
                    SpecIGMP::V1V2 {
                        igmp_type: s[0],
                        max_resp_time: s[1],
                        checksum: be_u16_at(s, 2),
                        group_address: be_u32_at(s, 4),
                    },
                    8,
                ),
            )
        }
    } else {
        None
    }
}

/// `n` group records are `n` records.
pub proof fn lemma_group_records_count(s: Seq<u8>, n: nat)
    requires
        spec_group_records(s, n) is Some,
    ensures
        spec_group_records(s, n).unwrap().0.len() == n,
    decreases n,
{
    if n > 0 {
        let (g, c) = spec_parse_group_record(s).unwrap();
        lemma_group_records_count(s.skip(c as int), (n - 1) as nat);
    }
}

/// How a message reads its bytes. Its type is its first byte: a version 3 report exactly
/// for 0x22, a version 3 query exactly for a membership query (0x11) longer than 8
/// bytes, and otherwise an 8-byte version 1 or 2 message of type 0x11, 0x12, 0x16 or 0x17.
/// The checksum is bytes 2-3, big-endian; a version 1 or 2 message has its max response
/// time in byte 1 and its group address in bytes 4-7; a query also decodes byte 1, takes
/// its S flag and QRV from byte 8, decodes its QQIC from byte 9 and counts its sources in
/// bytes 10-11, four bytes each from byte 12 on; a report counts its group records in
/// bytes 6-7.
pub proof fn lemma_igmp_fields(s: Seq<u8>)
    requires
        spec_parse_igmp(s) is Some,
    ensures
        ({
            let m = spec_parse_igmp(s).unwrap().0;
            &&& s.len() >= 8 || s[0] == 0x22
            &&& spec_message_type(m) == s[0]
            &&& (m is V3Report <==> s[0] == 0x22)
            &&& (m is V3Query <==> s[0] == 0x11 && s.len() > 8)
            &&& (m is V1V2 <==> (s[0] == 0x12 || s[0] == 0x16 || s[0] == 0x17 || (s[0] == 0x11 && s.len() == 8)))
            &&& m matches SpecIGMP::V1V2 { max_resp_time, checksum, group_address, .. } ==> {
                &&& max_resp_time == s[1]
                &&& checksum == 256 * s[2] + s[3]
                &&& group_address == 16777216 * s[4] + 65536 * s[5] + 256 * s[6] + s[7]
            }
            &&& m matches SpecIGMP::V3Query(q) ==> {
                &&& q.max_resp_time == spec_decode_float_code(s[1])
                &&& q.checksum == 256 * s[2] + s[3]
                &&& q.group_address == 16777216 * s[4] + 65536 * s[5] + 256 * s[6] + s[7]
                &&& q.suppress_router_side_processing == (s[8] / 8 % 2 == 1)
                &&& q.qrv == s[8] % 8
                &&& q.qqic == spec_decode_float_code(s[9])
                &&& q.sources.len() == 256 * s[10] + s[11]
                &&& forall|i: int|
                    0 <= i < q.sources.len() ==> #[trigger] q.sources[i] == 16777216 * s[12 + 4 * i] + 65536 * s[13 + 4
                        * i] + 256 * s[14 + 4 * i] + s[15 + 4 * i]
            }
            &&& m matches SpecIGMP::V3Report(r) ==> {
                &&& r.checksum == 256 * s[2] + s[3]
                &&& r.group_records.len() == 256 * s[6] + s[7]
            }
        }),
{
    if s[0] == 0x22 {
        let t = s.skip(1);
        lemma_be_at_two(t, 1);
        lemma_be_at_two(t, 5);
        lemma_group_records_count(t.skip(7), be_at(t, 5, 2));
    } else {
        lemma_be_at_two(s, 2);
        lemma_be_at_four(s, 4);
        if s[0] == 0x11 && s.len() > 8 {
            let q = s.skip(8);
            lemma_be_at_two(q, 2);
            lemma_be_words_bytes(q.skip(4), be_at(q, 2, 2));
            lemma_decode_float_code_bound(s[1]);
            lemma_decode_float_code_bound(s[9]);
        }
    }
}

/// A message of a type other than 0x11, 0x12, 0x16, 0x17 and 0x22, or of one of the
/// first four types in fewer than 8 bytes, is refused.
pub proof fn lemma_igmp_refused(s: Seq<u8>)
    requires
        s.len() >= 1,
        !(s[0] == 0x11 || s[0] == 0x12 || s[0] == 0x16 || s[0] == 0x17 || s[0] == 0x22) || (s[0] != 0x22
            && s.len() < 8),
    ensures
        spec_parse_igmp(s) is None,
{
}

fn parse_group_record<'a>(cur: &mut Cursor<'a>) -> (r: Option<GroupRecord<'a>>)
    requires
        old(cur).in_bounds(),
    ensures
        parse_outcome(r, spec_parse_group_record(old(cur).rest()), *old(cur), *final(cur)),
{
    proof {
        cur.lemma_data_len();
        broadcast use lemma_skip_subrange, lemma_skip_skip;
    }
    let ghost g = cur.rest();
    if cur.remaining().len() < 8 {
        return None;
    }
    let record_type = cur.u8().unwrap();
    let aux_data_len = cur.u8().unwrap();
    let num_sources = cur.u16_be().unwrap();
    let multicast_address = cur.u32_be().unwrap();

    let aux_len = aux_data_len as usize * 4;
    if cur.remaining().len() < 4 * (num_sources as usize) + aux_len {
        return None;
    }
    let sources = read_words(cur, num_sources);
    let aux_data = cur.bytes(aux_len).unwrap();

    Some(GroupRecord { record_type, multicast_address, sources, aux_data })
}

fn parse_v3_report<'a>(cur: &mut Cursor<'a>) -> (r: Option<IGMPv3Report<'a>>)
    requires
        old(cur).in_bounds(),
    ensures
        parse_outcome(r, spec_parse_v3_report(old(cur).rest()), *old(cur), *final(cur)),
{
    proof {
        cur.lemma_data_len();
        broadcast use lemma_skip_subrange, lemma_skip_skip;
    }
    let ghost s = cur.rest();
    let ghost p = cur.position();
    if cur.remaining().len() < 7 {
        return None;
    }
    let _reserved = cur.u8().unwrap();
    let checksum = cur.u16_be().unwrap();
    let _reserved = cur.u16_be().unwrap();
    let num_group_records = cur.u16_be().unwrap();

    let ghost records_bytes = s.skip(7);
    let mut group_records: Vec<GroupRecord<'a>> = Vec::with_capacity(num_group_records as usize);
    let mut i: u16 = 0;
    while i < num_group_records
        invariant
            0 <= i <= num_group_records,
            num_group_records == be_at(s, 5, 2),
            s == old(cur).rest(),
            p == old(cur).position(),
            cur.data() == old(cur).data(),
            cur.in_bounds(),
            cur.data().len() <= usize::MAX,
            p + 7 <= cur.position(),
            records_bytes == s.skip(7),
            records_bytes == cur.data().skip(p + 7),
            0 <= p,
            p + 7 <= cur.data().len(),
            ({
                let k = cur.position() - p - 7;
                match spec_group_records(records_bytes.skip(k), (num_group_records - i) as nat) {
                    None => spec_group_records(records_bytes, num_group_records as nat) is None,
                    Some((gs, c)) => spec_group_records(records_bytes, num_group_records as nat)
                        == Some((group_record_views(group_records@) + gs, (k + c) as nat)),
                }
            }),
        decreases num_group_records - i,
    {
        let ghost k = cur.position() - p - 7;
        let ghost before = group_records@;
        proof {
            lemma_skip_skip(cur.data(), p + 7, k);
        }
        let record = match parse_group_record(cur) {
            Some(g) => g,
            None => return None,
        };
        group_records.push(record);
        i = i + 1;
        proof {
            assert(group_record_views(group_records@) =~= group_record_views(before).push(record@));
            let c = cur.position() - p - 7 - k;
            lemma_skip_skip(records_bytes, k, c);
            match spec_group_records(records_bytes.skip(k + c), (num_group_records - i) as nat) {
                None => {},
                Some((gs, c2)) => {
                    assert(seq![record@] + gs =~= seq![record@].add(gs));
                    assert(group_record_views(group_records@) + gs =~= group_record_views(before) + (seq![record@] + gs));
                },
            }
        }
    }
    proof {
        let k = cur.position() - p - 7;
        assert(spec_group_records(records_bytes.skip(k), 0) == Some((Seq::<SpecGroupRecord>::empty(), 0nat)));
        assert(group_record_views(group_records@) + Seq::<SpecGroupRecord>::empty() =~= group_record_views(group_records@));
    }

    Some(IGMPv3Report { checksum, group_records })
}

/// Reads an IGMP message; `None` exactly where `spec_parse_igmp` has none.
pub(crate) fn try_parse_igmp<'a>(cur: &mut Cursor<'a>) -> (r: Option<IGMP<'a>>)
    requires
        old(cur).in_bounds(),
    ensures
        parse_outcome(r, spec_parse_igmp(old(cur).rest()), *old(cur), *final(cur)),
{
    proof {
        cur.lemma_data_len();
        broadcast use lemma_skip_subrange, lemma_skip_skip;
    }
    let ghost s = cur.rest();
    if cur.remaining().len() < 1 {
        return None;
    }
    let igmp_type = cur.u8().unwrap();

    match igmp_type {
        0x22 => match parse_v3_report(cur) {
            Some(report) => Some(IGMP::V3Report(report)),
            None => None,
        },
        0x11 | 0x12 | 0x16 | 0x17 => {
            if cur.remaining().len() < 7 {
                return None;
            }
            let max_resp_code = cur.u8().unwrap();
            let checksum = cur.u16_be().unwrap();
            let group_address = cur.u32_be().unwrap();

            if igmp_type == 0x11 && cur.has_remaining() {
                match parse_v3_query(cur, max_resp_code, checksum, group_address) {
                    Some(query) => Some(IGMP::V3Query(query)),
                    None => None,
                }
            } else {
                Some(IGMP::V1V2 { igmp_type, max_resp_time: max_resp_code, checksum, group_address })
            }
        },
        _ => None,
    }
}

/// Reads an IGMP message; the bytes must hold one (see `spec_parse_igmp`).
#[allow(dead_code)]
pub(crate) fn parse_igmp<'a>(cur: &mut Cursor<'a>) -> (r: IGMP<'a>)
    requires
        old(cur).in_bounds(),
        spec_parse_igmp(old(cur).rest()) is Some,
    ensures
        parse_outcome(Some(r), spec_parse_igmp(old(cur).rest()), *old(cur), *final(cur)),
{
    try_parse_igmp(cur).unwrap()
}

} // verus!
