use vstd::prelude::*;

verus! {

/// The number of nanoseconds in a second: the nanosecond part of a
/// timestamp stays below this bound.
pub open spec fn nanos_per_second() -> u32 {
    1_000_000_000
}

/// A fixed-width timestamp: a second count on the TAI scale (including the
/// scale's epoch offset) and a nanosecond part. Monotonic and
/// leap-second-free; ordered by seconds, then nanoseconds.
#[derive(Debug, Clone, Copy, PartialEq, Eq, Structural)]
pub struct TaiTime {
    /// The second label on the TAI scale.
    pub secs: u64,
    /// The nanosecond part, below one billion for a well-formed timestamp.
    pub nanos: u32,
}

/// The eight-byte big-endian form of a second count.
pub open spec fn u64_to_be_bytes(x: u64) -> Seq<u8> {
    seq![
        ((x >> 56) & 0xff) as u8,
        ((x >> 48) & 0xff) as u8,
        ((x >> 40) & 0xff) as u8,
        ((x >> 32) & 0xff) as u8,
        ((x >> 24) & 0xff) as u8,
        ((x >> 16) & 0xff) as u8,
        ((x >> 8) & 0xff) as u8,
        (x & 0xff) as u8,
    ]
}

/// The second count read from eight big-endian bytes.
pub open spec fn u64_from_be_bytes(s: Seq<u8>) -> u64
    recommends
        s.len() == 8,
{
    (s[0] as u64) << 56 | (s[1] as u64) << 48 | (s[2] as u64) << 40 | (s[3] as u64) << 32 | (
    s[4] as u64) << 24 | (s[5] as u64) << 16 | (s[6] as u64) << 8 | (s[7] as u64)
}

/// The four-byte big-endian form of a nanosecond count.
pub open spec fn u32_to_be_bytes(x: u32) -> Seq<u8> {
    seq![
        ((x >> 24) & 0xff) as u8,
        ((x >> 16) & 0xff) as u8,
        ((x >> 8) & 0xff) as u8,
        (x & 0xff) as u8,
    ]
}

/// The nanosecond count read from four big-endian bytes.
pub open spec fn u32_from_be_bytes(s: Seq<u8>) -> u32
    recommends
        s.len() == 4,
{
    (s[0] as u32) << 24 | (s[1] as u32) << 16 | (s[2] as u32) << 8 | (s[3] as u32)
}

/// Reading eight big-endian bytes undoes writing them.
pub proof fn lemma_u64_be_round_trip(x: u64)
    ensures
        u64_from_be_bytes(u64_to_be_bytes(x)) == x,
{
    assert(((x >> 56) & 0xff) << 56 | ((x >> 48) & 0xff) << 48 | ((x >> 40) & 0xff) << 40 | ((x
        >> 32) & 0xff) << 32 | ((x >> 24) & 0xff) << 24 | ((x >> 16) & 0xff) << 16 | ((x >> 8)
        & 0xff) << 8 | (x & 0xff) == x) by (bit_vector);
    assert((((x >> 56) & 0xff) as u8) as u64 == (x >> 56) & 0xff) by (bit_vector);
    assert((((x >> 48) & 0xff) as u8) as u64 == (x >> 48) & 0xff) by (bit_vector);
    assert((((x >> 40) & 0xff) as u8) as u64 == (x >> 40) & 0xff) by (bit_vector);
    assert((((x >> 32) & 0xff) as u8) as u64 == (x >> 32) & 0xff) by (bit_vector);
    assert((((x >> 24) & 0xff) as u8) as u64 == (x >> 24) & 0xff) by (bit_vector);
    assert((((x >> 16) & 0xff) as u8) as u64 == (x >> 16) & 0xff) by (bit_vector);
    assert((((x >> 8) & 0xff) as u8) as u64 == (x >> 8) & 0xff) by (bit_vector);
    assert(((x & 0xff) as u8) as u64 == x & 0xff) by (bit_vector);
}

/// Reading four big-endian bytes undoes writing them.
pub proof fn lemma_u32_be_round_trip(x: u32)
    ensures
        u32_from_be_bytes(u32_to_be_bytes(x)) == x,
{
    assert(((x >> 24) & 0xff) << 24 | ((x >> 16) & 0xff) << 16 | ((x >> 8) & 0xff) << 8 | (x
        & 0xff) == x) by (bit_vector);
    assert((((x >> 24) & 0xff) as u8) as u32 == (x >> 24) & 0xff) by (bit_vector);
    assert((((x >> 16) & 0xff) as u8) as u32 == (x >> 16) & 0xff) by (bit_vector);
    assert((((x >> 8) & 0xff) as u8) as u32 == (x >> 8) & 0xff) by (bit_vector);
    assert(((x & 0xff) as u8) as u32 == x & 0xff) by (bit_vector);
}

/// The twelve-byte form of a timestamp: eight big-endian bytes of seconds,
/// then four big-endian bytes of nanoseconds.
pub open spec fn tai_bytes(t: TaiTime) -> Seq<u8> {
    u64_to_be_bytes(t.secs) + u32_to_be_bytes(t.nanos)
}

/// Parsing twelve timestamp bytes: exactly twelve bytes, and the
/// nanosecond part must be below one billion; everything else is rejected.
pub open spec fn parse_tai_bytes(b: Seq<u8>) -> Option<TaiTime> {
    if b.len() != 12 {
        Option::None
    } else {
        let t = TaiTime {
            secs: u64_from_be_bytes(b.subrange(0, 8)),
            nanos: u32_from_be_bytes(b.subrange(8, 12)),
        };
        if t.nanos < nanos_per_second() {
            Option::Some(t)
        } else {
            Option::None
        }
    }
}

/// The timestamp a number of whole seconds later, saturating at the
/// largest second count.
pub open spec fn tai_plus_secs(t: TaiTime, secs: u64) -> TaiTime {
    if t.secs + secs <= u64::MAX {
        TaiTime { secs: (t.secs + secs) as u64, nanos: t.nanos }
    } else {
        TaiTime { secs: u64::MAX, nanos: t.nanos }
    }
}

/// The number of seconds in a whole number of hours.
pub fn hours_to_secs(hours: u64) -> (r: u64)
    requires
        hours <= u64::MAX / 3600,
    ensures
        r == hours * 3600,
{
    hours * 3600
}

/// Ordering: by seconds, then by nanoseconds.
pub open spec fn tai_le(a: TaiTime, b: TaiTime) -> bool {
    a.secs < b.secs || (a.secs == b.secs && a.nanos <= b.nanos)
}

/// Parsing timestamp bytes undoes writing them, for any well-formed
/// timestamp.
pub proof fn lemma_tai_bytes_round_trip(t: TaiTime)
    requires
        t.nanos < nanos_per_second(),
    ensures
        parse_tai_bytes(tai_bytes(t)) == Option::Some(t),
{
    lemma_u64_be_round_trip(t.secs);
    lemma_u32_be_round_trip(t.nanos);
    assert(tai_bytes(t).subrange(0, 8) =~= u64_to_be_bytes(t.secs));
    assert(tai_bytes(t).subrange(8, 12) =~= u32_to_be_bytes(t.nanos));
}

impl TaiTime {
    /// True when the nanosecond part is in range.
    pub open spec fn wf(self) -> bool {
        self.nanos < nanos_per_second()
    }

    /// Serialize the timestamp as its twelve-byte form.
    pub fn to_bytes(&self) -> (r: Vec<u8>)
        ensures
            r@ == tai_bytes(*self),
    {
        let mut r: Vec<u8> = Vec::new();
        r.push(((self.secs >> 56) & 0xff) as u8);
        r.push(((self.secs >> 48) & 0xff) as u8);
        r.push(((self.secs >> 40) & 0xff) as u8);
        r.push(((self.secs >> 32) & 0xff) as u8);
        r.push(((self.secs >> 24) & 0xff) as u8);
        r.push(((self.secs >> 16) & 0xff) as u8);
        r.push(((self.secs >> 8) & 0xff) as u8);
        r.push((self.secs & 0xff) as u8);
        r.push(((self.nanos >> 24) & 0xff) as u8);
        r.push(((self.nanos >> 16) & 0xff) as u8);
        r.push(((self.nanos >> 8) & 0xff) as u8);
        r.push((self.nanos & 0xff) as u8);
        proof {
            assert(r@ =~= tai_bytes(*self));
        }
        r
    }

    /// Parse a twelve-byte form back into a timestamp; any other length,
    /// or an out-of-range nanosecond part, is rejected.
    pub fn from_bytes(bytes: &Vec<u8>) -> (r: Option<TaiTime>)
        ensures
            r == parse_tai_bytes(bytes@),
            r is Some ==> r.unwrap().wf(),
    {
        if bytes.len() != 12 {
            return Option::None;
        }
        let secs: u64 = ((bytes[0] as u64) << 56) | ((bytes[1] as u64) << 48) | ((
        bytes[2] as u64) << 40) | ((bytes[3] as u64) << 32) | ((bytes[4] as u64) << 24) | ((
        bytes[5] as u64) << 16) | ((bytes[6] as u64) << 8) | (bytes[7] as u64);
        let nanos: u32 = ((bytes[8] as u32) << 24) | ((bytes[9] as u32) << 16) | ((
        bytes[10] as u32) << 8) | (bytes[11] as u32);
        proof {
            assert(bytes@.subrange(0, 8)[0] == bytes@[0]);
            assert(secs == u64_from_be_bytes(bytes@.subrange(0, 8)));
            assert(nanos == u32_from_be_bytes(bytes@.subrange(8, 12)));
        }
        if nanos < 1_000_000_000 {
            Option::Some(TaiTime { secs, nanos })
        } else {
            Option::None
        }
    }

    /// The timestamp a number of whole seconds later; a sum beyond the
    /// range of the second count saturates at the largest count.
    pub fn plus_secs(&self, secs: u64) -> (r: TaiTime)
        ensures
            r == tai_plus_secs(*self, secs),
    {
        if secs <= u64::MAX - self.secs {
            TaiTime { secs: self.secs + secs, nanos: self.nanos }
        } else {
            TaiTime { secs: u64::MAX, nanos: self.nanos }
        }
    }

    /// True when this timestamp is at or before the other.
    pub fn le(&self, other: &TaiTime) -> (r: bool)
        ensures
            r == tai_le(*self, *other),
    {
        self.secs < other.secs || (self.secs == other.secs && self.nanos <= other.nanos)
    }
}

/// Relies on `tai64::TAI64N::now`, which reads the system clock. The result
/// depends on the clock, so only the type's own invariant is assumed of it:
/// the nanosecond part is below one billion.
#[verifier::external_body]
pub fn tai_now() -> (r: TaiTime)
    ensures
        r.wf(),
{
    let t = tai64::TAI64N::now();
    TaiTime { secs: (t.0).0, nanos: t.1 }
}

} // verus!
