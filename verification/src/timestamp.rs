//! Timestamps on the wire: a signed count of milliseconds since the Unix
//! epoch, sent as eight bytes, most significant byte first.

use vstd::prelude::*;
use crate::error::DecodeError;

verus! {

/// A point in time, to the millisecond.
#[derive(Copy, Clone, PartialEq, Eq, Debug, Structural)]
pub struct Timestamp {
    /// Milliseconds since 1970-01-01T00:00:00Z; negative before it.
    pub millis: i64,
}

/// The number of bytes that a timestamp takes on the wire.
pub const TIMESTAMP_LEN: usize = 8;

/// The unsigned 64-bit number that stands for `millis` in two's complement.
pub open spec fn unsigned_of(millis: i64) -> int {
    if millis < 0 {
        millis + 0x1_0000_0000_0000_0000
    } else {
        millis as int
    }
}

/// The signed number that the unsigned 64-bit number `n` stands for in two's
/// complement.
pub open spec fn signed_of(n: int) -> int {
    if n >= 0x8000_0000_0000_0000 {
        n - 0x1_0000_0000_0000_0000
    } else {
        n
    }
}

/// The eight base-256 digits of `n`, most significant first.
pub open spec fn be_digits(n: int) -> Seq<u8> {
    seq![
        (n / 0x100_0000_0000_0000 % 256) as u8,
        (n / 0x1_0000_0000_0000 % 256) as u8,
        (n / 0x100_0000_0000 % 256) as u8,
        (n / 0x1_0000_0000 % 256) as u8,
        (n / 0x100_0000 % 256) as u8,
        (n / 0x1_0000 % 256) as u8,
        (n / 0x100 % 256) as u8,
        (n % 256) as u8,
    ]
}

/// The number whose base-256 digits, most significant first, are the first
/// eight bytes of `digits`.
pub open spec fn be_number(digits: Seq<u8>) -> int {
    digits[0] * 0x100_0000_0000_0000 + digits[1] * 0x1_0000_0000_0000 + digits[2]
        * 0x100_0000_0000 + digits[3] * 0x1_0000_0000 + digits[4] * 0x100_0000 + digits[5]
        * 0x1_0000 + digits[6] * 0x100 + digits[7]
}

/// The wire form of `time`.
pub open spec fn spec_datetime_to_bytes(time: Timestamp) -> Seq<u8> {
    be_digits(unsigned_of(time.millis))
}

/// The timestamp at the front of `bytes`. Bytes after the eighth are not
/// looked at.
pub open spec fn spec_bytes_to_datetime(bytes: Seq<u8>) -> Result<Timestamp, DecodeError> {
    if bytes.len() < TIMESTAMP_LEN {
        Err(DecodeError::InvalidTimestamp)
    } else {
        Ok(Timestamp { millis: signed_of(be_number(bytes)) as i64 })
    }
}

impl Timestamp {
    /// The timestamp `millis` milliseconds after the epoch.
    pub fn from_millis(millis: i64) -> (time: Timestamp)
        ensures
            time.millis == millis,
    {
        Timestamp { millis }
    }

    /// Milliseconds since the epoch.
    pub fn timestamp_millis(&self) -> (millis: i64)
        ensures
            millis == self.millis,
    {
        self.millis
    }
}

/// Writes `time` as eight bytes, most significant first.
pub fn datetime_to_bytes(time: Timestamp) -> (bytes: Vec<u8>)
    ensures
        bytes@ == spec_datetime_to_bytes(time),
        bytes@.len() == TIMESTAMP_LEN,
        spec_bytes_to_datetime(bytes@) == Ok::<Timestamp, DecodeError>(time),
{
    let n: u64 = if time.millis < 0 {
        let above_min: i64 = time.millis - i64::MIN;
        above_min as u64 + 0x8000_0000_0000_0000u64
    } else {
        time.millis as u64
    };
    assert(n == unsigned_of(time.millis));
    let mut bytes: Vec<u8> = Vec::new();
    bytes.push((n / 0x100_0000_0000_0000 % 256) as u8);
    bytes.push((n / 0x1_0000_0000_0000 % 256) as u8);
    bytes.push((n / 0x100_0000_0000 % 256) as u8);
    bytes.push((n / 0x1_0000_0000 % 256) as u8);
    bytes.push((n / 0x100_0000 % 256) as u8);
    bytes.push((n / 0x1_0000 % 256) as u8);
    bytes.push((n / 0x100 % 256) as u8);
    bytes.push((n % 256) as u8);
    proof {
        assert(bytes@ =~= be_digits(n as int));
        lemma_number_of_digits(n as int);
    }
    bytes
}

/// Reads the timestamp at the front of `bytes`.
///
/// Fails with `InvalidTimestamp` exactly when fewer than eight bytes are
/// there.
pub fn bytes_to_datetime(bytes: &[u8]) -> (time: Result<Timestamp, DecodeError>)
    ensures
        time == spec_bytes_to_datetime(bytes@),
        time is Err <==> bytes@.len() < TIMESTAMP_LEN,
{
    if bytes.len() < TIMESTAMP_LEN {
        return Err(DecodeError::InvalidTimestamp);
    }
    let n: u64 = bytes[0] as u64 * 0x100_0000_0000_0000 + bytes[1] as u64 * 0x1_0000_0000_0000
        + bytes[2] as u64 * 0x100_0000_0000 + bytes[3] as u64 * 0x1_0000_0000 + bytes[4] as u64
        * 0x100_0000 + bytes[5] as u64 * 0x1_0000 + bytes[6] as u64 * 0x100 + bytes[7] as u64;
    let millis: i64 = if n >= 0x8000_0000_0000_0000 {
        let below_half: u64 = n - 0x8000_0000_0000_0000;
        below_half as i64 + i64::MIN
    } else {
        n as i64
    };
    Ok(Timestamp { millis })
}

/// A timestamp that is written and read back is unchanged, whatever bytes
/// follow it.
pub proof fn lemma_timestamp_round_trip(time: Timestamp, rest: Seq<u8>)
    ensures
        spec_bytes_to_datetime(spec_datetime_to_bytes(time) + rest) == Ok::<
            Timestamp,
            DecodeError,
        >(time),
{
    let n = unsigned_of(time.millis);
    let digits = be_digits(n);
    lemma_number_of_digits(n);
    let all = digits + rest;
    assert(all[0] == digits[0] && all[1] == digits[1] && all[2] == digits[2] && all[3]
        == digits[3]);
    assert(all[4] == digits[4] && all[5] == digits[5] && all[6] == digits[6] && all[7]
        == digits[7]);
    assert(be_number(all) == be_number(digits));
}

/// Any eight bytes are the wire form of the timestamp that they are read
/// as.
pub proof fn lemma_bytes_round_trip(bytes: Seq<u8>)
    requires
        bytes.len() == TIMESTAMP_LEN,
    ensures
        spec_bytes_to_datetime(bytes) matches Ok(time) && spec_datetime_to_bytes(time) == bytes,
{
    lemma_digits_of_number(bytes);
}

/// Dividing by a power of 256 is dividing by 256 again and again.
proof fn lemma_quotients(n: int)
    requires
        0 <= n,
    ensures
        n / 0x1_0000 == n / 0x100 / 256,
        n / 0x100_0000 == n / 0x1_0000 / 256,
        n / 0x1_0000_0000 == n / 0x100_0000 / 256,
        n / 0x100_0000_0000 == n / 0x1_0000_0000 / 256,
        n / 0x1_0000_0000_0000 == n / 0x100_0000_0000 / 256,
        n / 0x100_0000_0000_0000 == n / 0x1_0000_0000_0000 / 256,
{
    assert(n / 0x1_0000 == n / 0x100 / 256);
    assert(n / 0x100_0000 == n / 0x1_0000 / 256);
    assert(n / 0x1_0000_0000 == n / 0x100_0000 / 256);
    assert(n / 0x100_0000_0000 == n / 0x1_0000_0000 / 256);
    assert(n / 0x1_0000_0000_0000 == n / 0x100_0000_0000 / 256);
    assert(n / 0x100_0000_0000_0000 == n / 0x1_0000_0000_0000 / 256);
}

/// Eight digits are the digits of the number they make up: no two digit
/// strings stand for the same number.
pub proof fn lemma_digits_of_number(digits: Seq<u8>)
    requires
        digits.len() == 8,
    ensures
        0 <= be_number(digits) < 0x1_0000_0000_0000_0000,
        be_digits(be_number(digits)) == digits,
{
    let n = be_number(digits);
    let m1 = digits[0] * 0x1_0000_0000_0000 + digits[1] * 0x100_0000_0000 + digits[2]
        * 0x1_0000_0000 + digits[3] * 0x100_0000 + digits[4] * 0x1_0000 + digits[5] * 0x100
        + digits[6];
    let m2 = digits[0] * 0x100_0000_0000 + digits[1] * 0x1_0000_0000 + digits[2] * 0x100_0000
        + digits[3] * 0x1_0000 + digits[4] * 0x100 + digits[5];
    let m3 = digits[0] * 0x1_0000_0000 + digits[1] * 0x100_0000 + digits[2] * 0x1_0000
        + digits[3] * 0x100 + digits[4];
    let m4 = digits[0] * 0x100_0000 + digits[1] * 0x1_0000 + digits[2] * 0x100 + digits[3];
    let m5 = digits[0] * 0x1_0000 + digits[1] * 0x100 + digits[2];
    let m6 = digits[0] * 0x100 + digits[1];
    let m7 = digits[0] as int;
    assert(n == 256 * m1 + digits[7] && m1 == 256 * m2 + digits[6] && m2 == 256 * m3
        + digits[5] && m3 == 256 * m4 + digits[4]);
    assert(m4 == 256 * m5 + digits[3] && m5 == 256 * m6 + digits[2] && m6 == 256 * m7
        + digits[1]);
    assert(n / 256 == m1 && n % 256 == digits[7]);
    assert(m1 / 256 == m2 && m1 % 256 == digits[6]);
    assert(m2 / 256 == m3 && m2 % 256 == digits[5]);
    assert(m3 / 256 == m4 && m3 % 256 == digits[4]);
    assert(m4 / 256 == m5 && m4 % 256 == digits[3]);
    assert(m5 / 256 == m6 && m5 % 256 == digits[2]);
    assert(m6 / 256 == m7 && m6 % 256 == digits[1]);
    assert(m7 % 256 == digits[0]);
    lemma_quotients(n);
    assert(be_digits(n) =~= digits);
}

/// A 64-bit number is made up of its eight digits.
pub proof fn lemma_number_of_digits(n: int)
    requires
        0 <= n < 0x1_0000_0000_0000_0000,
    ensures
        be_digits(n).len() == 8,
        be_number(be_digits(n)) == n,
{
    lemma_quotients(n);
    let r1 = n / 0x100;
    let r2 = n / 0x1_0000;
    let r3 = n / 0x100_0000;
    let r4 = n / 0x1_0000_0000;
    let r5 = n / 0x100_0000_0000;
    let r6 = n / 0x1_0000_0000_0000;
    let r7 = n / 0x100_0000_0000_0000;
    assert(n == 256 * r1 + n % 256);
    assert(r1 == 256 * r2 + r1 % 256);
    assert(r2 == 256 * r3 + r2 % 256);
    assert(r3 == 256 * r4 + r3 % 256);
    assert(r4 == 256 * r5 + r4 % 256);
    assert(r5 == 256 * r6 + r5 % 256);
    assert(r6 == 256 * r7 + r6 % 256);
    assert(r7 == r7 % 256);
}

} // verus!
