//! The packet records that follow the global header of a pcap file.
use vstd::prelude::*;

use chrono::{DateTime, Utc};

use crate::byteorder::{lemma_be_at_four, lemma_le_four};
use crate::pcap::cursor::Cursor;
use crate::pcap::header::{endian_value, Endianness, TSecs};

verus! {

/// Whether a nanosecond count is valid after a whole second `secs`: below one second,
/// or below two seconds (a leap second) where `secs` is the last second of a minute.
pub open spec fn valid_nanoseconds(secs: int, nsecs: int) -> bool {
    nsecs < 1_000_000_000 || (nsecs < 2_000_000_000 && secs % 60 == 59)
}

/// Calls `chrono::DateTime::<Utc>::from_timestamp` and tells whether it gives a date and
/// time. Trusted: for a number of seconds that fits in a `u32` the date is in chrono's
/// range, so that the call gives one exactly where the nanoseconds are valid. Nothing is
/// claimed for other second counts.
#[verifier::external_body]
fn is_valid_utc_timestamp(secs: i64, nsecs: u32) -> (r: bool)
    ensures
        0 <= secs <= u32::MAX ==> (r == valid_nanoseconds(secs as int, nsecs as int)),
{
    match DateTime::<Utc>::from_timestamp(secs, nsecs) {
        Some(_) => true,
        None => false,
    }
}

/// A point in time, in UTC: seconds and nanoseconds after the UNIX epoch.
#[derive(Debug, Clone, Copy, PartialEq, Eq, Structural)]
pub struct Timestamp {
    pub secs: i64,
    pub nanos: u32,
}

/// A captured packet: when it arrived, how many of its bytes were captured out of how
/// many, and the captured bytes.
pub struct Packet<'a> {
    /// A time that `chrono::DateTime::<Utc>::from_timestamp(secs, nanos)` accepts.
    pub timestamp: Timestamp,
    pub captured_length: u32,
    pub original_length: u32,
    pub truncated: bool,
    pub payload: &'a [u8],
}

/// Why a packet record could not be read.
#[derive(Debug)]
pub enum RecordError {
    /// Fewer bytes than the 16-byte record header and the captured length announce.
    Truncated,
    /// A sub-second part that is no valid number of nanoseconds.
    BadTimestamp,
}

/// The fields of a 16-byte record header: seconds, sub-second part, captured length,
/// original length, each 32 bits in the file's byte order.
pub open spec fn record_field(e: Endianness, s: Seq<u8>, i: int) -> u32 {
    endian_value(e, s.subrange(4 * i, 4 * i + 4)) as u32
}

/// The nanoseconds of a sub-second part in unit `t`.
pub open spec fn nanoseconds(t: TSecs, frac: u32) -> int {
    match t {
        TSecs::Nano => frac as int,
        TSecs::Micro => frac * 1000,
    }
}

/// The outcome of reading one record from the non-empty bytes `s`: the packet's fields
/// (timestamp seconds, nanoseconds, captured and original length, payload) and the
/// record's length; or why there is none.
pub open spec fn spec_record(e: Endianness, t: TSecs, s: Seq<u8>) -> Result<(u32, u32, u32, u32, Seq<u8>, nat), RecordError> {
    if s.len() < 16 {
        Err(RecordError::Truncated)
    } else {
        let secs = record_field(e, s, 0);
        let nsecs = nanoseconds(t, record_field(e, s, 1));
        let captured = record_field(e, s, 2);
        if nsecs > u32::MAX || !valid_nanoseconds(secs as int, nsecs) {
            Err(RecordError::BadTimestamp)
        } else if s.len() < 16 + captured {
            Err(RecordError::Truncated)
        } else {
            Ok(
                (
                    secs,
                    nsecs as u32,
                    captured,
                    record_field(e, s, 3),
                    s.subrange(16, 16 + captured),
                    (16 + captured) as nat,
                ),
            )
        }
    }
}

/// The 32-bit number that bytes `i` to `i + 3` of `s` hold in byte order `e`.
pub open spec fn word_in_order(e: Endianness, s: Seq<u8>, i: int) -> int {
    match e {
        Endianness::Little => s[i] + 256 * s[i + 1] + 65536 * s[i + 2] + 16777216 * s[i + 3],
        Endianness::Big => 16777216 * s[i] + 65536 * s[i + 1] + 256 * s[i + 2] + s[i + 3],
    }
}

/// How a record reads its 16-byte header, in the file's byte order: the seconds are
/// bytes 0-3, the sub-second part bytes 4-7 (a count of microseconds is a thousand times
/// as many nanoseconds), the captured length bytes 8-11 and the original length bytes
/// 12-15; the payload is the captured bytes right after the header, and the record takes
/// the header and those bytes. Its nanoseconds make less than a second, or less than two
/// in the last second of a minute (a leap second).
pub proof fn lemma_record_fields(e: Endianness, t: TSecs, s: Seq<u8>)
    requires
        spec_record(e, t, s) is Ok,
    ensures
        ({
            let x = spec_record(e, t, s)->Ok_0;
            let captured = word_in_order(e, s, 8);
            &&& s.len() >= 16 + captured
            &&& x.0 == word_in_order(e, s, 0)
            &&& (t is Nano ==> x.1 == word_in_order(e, s, 4))
            &&& (t is Micro ==> x.1 == 1000 * word_in_order(e, s, 4))
            &&& x.2 == captured
            &&& x.3 == word_in_order(e, s, 12)
            &&& x.4 == s.subrange(16, 16 + captured)
            &&& x.5 == 16 + captured
            &&& x.1 < 1_000_000_000 || (x.1 < 2_000_000_000 && x.0 % 60 == 59)
        }),
{
    match e {
        Endianness::Little => {
            lemma_le_four(s.subrange(0, 4));
            lemma_le_four(s.subrange(4, 8));
            lemma_le_four(s.subrange(8, 12));
            lemma_le_four(s.subrange(12, 16));
        },
        Endianness::Big => {
            lemma_be_at_four(s, 0);
            lemma_be_at_four(s, 4);
            lemma_be_at_four(s, 8);
            lemma_be_at_four(s, 12);
        },
    }
}

/// The records that the bytes `s` hold one after the other, up to their end, as
/// `spec_record` reads each; `None` where one of them cannot be read.
pub open spec fn spec_records(e: Endianness, t: TSecs, s: Seq<u8>) -> Option<Seq<(u32, u32, u32, u32, Seq<u8>, nat)>>
    decreases s.len(),
{
    if s.len() == 0 {
        Some(Seq::empty())
    } else {
        match spec_record(e, t, s) {
            Err(_) => None,
            Ok(x) => match spec_records(e, t, s.skip(x.5 as int)) {
                None => None,
                Some(rs) => Some(seq![x] + rs),
            },
        }
    }
}

/// The number of bytes that a sequence of records takes.
pub open spec fn records_len(rs: Seq<(u32, u32, u32, u32, Seq<u8>, nat)>) -> nat
    decreases rs.len(),
{
    if rs.len() == 0 {
        0
    } else {
        rs[0].5 + records_len(rs.drop_first())
    }
}

/// The records tile the bytes: where all of them can be read, their lengths (16 bytes
/// of record header and the captured bytes each) add up to the number of bytes.
pub proof fn lemma_records_tile(e: Endianness, t: TSecs, s: Seq<u8>)
    requires
        spec_records(e, t, s) is Some,
    ensures
        records_len(spec_records(e, t, s).unwrap()) == s.len(),
    decreases s.len(),
{
    if s.len() > 0 {
        let x = spec_record(e, t, s)->Ok_0;
        lemma_records_tile(e, t, s.skip(x.5 as int));
        let rs = spec_records(e, t, s.skip(x.5 as int)).unwrap();
        assert((seq![x] + rs).drop_first() =~= rs);
    }
}

/// Reads the packet records of a pcap file one after the other.
pub struct PacketIter<'a> {
    cur: Cursor<'a>,
    tsec: TSecs,
}

impl<'a> PacketIter<'a> {
    /// The cursor that the records are read from.
    pub closed spec fn cursor(&self) -> Cursor<'a> {
        self.cur
    }

    /// The unit of the timestamps' sub-second part.
    pub closed spec fn unit(&self) -> TSecs {
        self.tsec
    }

    /// The iterator can read: where bytes are left, its cursor has a byte order.
    pub open spec fn ready(&self) -> bool {
        self.cursor().position() < self.cursor().data().len() ==> self.cursor().byte_order() is Some
    }

    /// What a read of the next record gives: `Ok(None)` where no bytes are left.
    pub open spec fn spec_next(&self) -> Result<Option<(u32, u32, u32, u32, Seq<u8>, nat)>, RecordError> {
        if self.cursor().position() >= self.cursor().data().len() {
            Ok(None)
        } else {
            match spec_record(self.cursor().byte_order().unwrap(), self.unit(), self.cursor().rest()) {
                Ok(x) => Ok(Some(x)),
                Err(e) => Err(e),
            }
        }
    }

    /// `p` is the packet that a record read as `next` describes: its timestamp,
    /// lengths, truncation and payload.
    pub open spec fn next_packet_matches(
        p: Packet<'a>,
        next: (u32, u32, u32, u32, Seq<u8>, nat),
    ) -> bool {
        let (secs, nsecs, captured, original, payload, _) = next;
        &&& p.timestamp == (Timestamp { secs: secs as i64, nanos: nsecs })
        &&& p.captured_length == captured
        &&& p.original_length == original
        &&& p.truncated == (captured != original)
        &&& p.payload@ == payload
    }

    /// The iterator gives the records that its bytes hold, in order: where `rs` are the
    /// records from its position on, the next read gives the first of them, after which
    /// the rest of `rs` are the records from the new position; and it gives none where
    /// `rs` is empty. With `lemma_records_tile` and the moves that `next` makes, the
    /// records read from a cursor tile its bytes.
    pub proof fn lemma_next_is_first_record(&self)
        requires
            self.ready(),
            self.cursor().in_bounds(),
            spec_records(self.cursor().byte_order().unwrap(), self.unit(), self.cursor().rest()) is Some,
        ensures
            ({
                let e = self.cursor().byte_order().unwrap();
                let rest = self.cursor().rest();
                let rs = spec_records(e, self.unit(), rest).unwrap();
                &&& rs.len() == 0 <==> self.spec_next() == Ok::<Option<(u32, u32, u32, u32, Seq<u8>, nat)>, RecordError>(None)
                &&& rs.len() > 0 ==> {
                    &&& self.spec_next() == Ok::<Option<(u32, u32, u32, u32, Seq<u8>, nat)>, RecordError>(Some(rs[0]))
                    &&& rs[0].5 <= rest.len()
                    &&& spec_records(e, self.unit(), rest.skip(rs[0].5 as int)) == Some(rs.drop_first())
                }
            }),
    {
        let e = self.cursor().byte_order().unwrap();
        let rest = self.cursor().rest();
        if rest.len() > 0 {
            let x = spec_record(e, self.unit(), rest)->Ok_0;
            let tail = spec_records(e, self.unit(), rest.skip(x.5 as int)).unwrap();
            assert((seq![x] + tail).drop_first() =~= tail);
        }
    }

    pub fn new(cur: Cursor<'a>, tsec: TSecs) -> (r: Self)
        ensures
            r.cursor() == cur,
            r.unit() == tsec,
    {
        PacketIter { cur, tsec }
    }

    /// Reads the next record: `Ok(None)` where no bytes are left, otherwise the packet
    /// or why there is none.
    pub fn try_next(&mut self) -> (r: Result<Option<Packet<'a>>, RecordError>)
        requires
            old(self).ready(),
        ensures
            final(self).cursor().data() == old(self).cursor().data(),
            final(self).unit() == old(self).unit(),
            match (r, old(self).spec_next()) {
                (Ok(None), Ok(None)) => *final(self) == *old(self),
                (Ok(Some(p)), Ok(Some(next))) => {
                    &&& Self::next_packet_matches(p, next)
                    &&& final(self).cursor().moved_from(old(self).cursor(), next.5 as int)
                    &&& final(self).ready()
                },
                (Err(e1), Err(e2)) => e1 == e2,
                _ => false,
            },
    {
        proof {
            self.cur.lemma_data_len();
            broadcast use crate::byteorder::lemma_skip_subrange;
        }
        if !self.cur.has_remaining() {
            return Ok(None);
        }
        if self.cur.remaining().len() < 16 {
            return Err(RecordError::Truncated);
        }
        let ghost s = self.cur.rest();
        let timestamp_secs = self.cur.u32().unwrap();
        let timestamp_frac = self.cur.u32().unwrap();
        let nanos = match self.tsec {
            TSecs::Nano => timestamp_frac,
            TSecs::Micro => {
                if timestamp_frac > 4_294_967 {
                    return Err(RecordError::BadTimestamp);
                }
                timestamp_frac * 1_000
            },
        };
        if !is_valid_utc_timestamp(timestamp_secs as i64, nanos) {
            return Err(RecordError::BadTimestamp);
        }
        let timestamp = Timestamp { secs: timestamp_secs as i64, nanos };

        let captured_length = self.cur.u32().unwrap();
        let original_length = self.cur.u32().unwrap();

        if (self.cur.remaining().len() as u64) < captured_length as u64 {
            return Err(RecordError::Truncated);
        }
        let payload = self.cur.bytes(captured_length as usize).unwrap();
        Ok(
            Some(
                Packet {
                    timestamp,
                    captured_length,
                    original_length,
                    truncated: captured_length != original_length,
                    payload,
                },
            ),
        )
    }

    /// Reads the next packet; `None` where no bytes are left. The record must be whole
    /// and its timestamp valid.
    pub fn next(&mut self) -> (r: Option<Packet<'a>>)
        requires
            old(self).ready(),
            old(self).spec_next() is Ok,
        ensures
            final(self).cursor().data() == old(self).cursor().data(),
            final(self).unit() == old(self).unit(),
            final(self).ready(),
            match (r, old(self).spec_next()) {
                (None, Ok(None)) => *final(self) == *old(self),
                (Some(p), Ok(Some(next))) => {
                    &&& Self::next_packet_matches(p, next)
                    &&& final(self).cursor().moved_from(old(self).cursor(), next.5 as int)
                },
                _ => false,
            },
    {
        self.try_next().unwrap()
    }
}

} // verus!
