//! IEC 61850 data values and their conversions.

use vstd::prelude::*;
use crate::mms::codec::unix_timestamp_check;

verus! {

/// The milliseconds between the epoch of MMS binary time (1984-01-01) and
/// the Unix epoch.
pub const MMS_TO_UNIX_EPOCH_OFFSET: i64 = 441_763_200_000;

/// The milliseconds of one day.
pub const MILLISECONDS_PER_DAY: i64 = 86_400_000;

/// What can go wrong when data is converted.
#[derive(Debug, Clone, Copy, PartialEq, Eq, Structural)]
pub enum Iec61850DataError {
    /// The data is of another kind than asked for.
    InvalidData,
    /// The data cannot be converted.
    InvalidConversion,
    /// A string holds a character that its type does not allow.
    InvalidStringConversion,
    /// The data is shorter than its type.
    MissingData,
    /// The time lies outside the years that a date can hold.
    InvalidTimestamp,
}

/// A bit string in bytes, with the number of unused bits of the last byte.
#[derive(Debug, Clone, PartialEq, Eq)]
pub struct Bitstring {
    /// The bytes of the bit string.
    pub bytes: Vec<u8>,
    /// The number of bits that fill up the last byte.
    pub padding: u8,
}

/// A point in time: whole seconds since the Unix epoch and the nanoseconds
/// of the running second.
#[derive(Debug, Clone, Copy, PartialEq, Eq, Structural)]
pub struct Timestamp {
    /// Seconds since 1970-01-01 00:00:00 UTC.
    pub seconds: i64,
    /// Nanoseconds of the running second.
    pub nanoseconds: u32,
}

/// An IEC 61850 data value.
#[derive(Debug, PartialEq, Eq)]
pub enum Iec61850Data {
    /// An array of values.
    Array(Vec<Iec61850Data>),
    /// A structure of values.
    Structure(Vec<Iec61850Data>),
    /// A boolean.
    Bool(bool),
    /// A bit string.
    BitString(Bitstring),
    /// An integer.
    Integer(i32),
    /// An unsigned integer.
    Unsigned(u32),
    /// A floating point number, as the bits of its IEEE 754 single format.
    FloatingPoint(u32),
    /// An octet string.
    OctetString(Vec<u8>),
    /// A visible string.
    String(String),
    /// A binary time.
    BinaryTime(Timestamp),
    /// An MMS string.
    MMSString(String),
    /// A UTC time.
    UtcTime(Timestamp),
}

impl Timestamp {
    /// A time is well formed when its nanoseconds stay below one second.
    pub open spec fn wf(self) -> bool {
        self.nanoseconds < 1_000_000_000
    }

    /// The milliseconds of the running second.
    pub open spec fn spec_millisecond(self) -> int {
        self.nanoseconds as int / 1_000_000
    }

    /// The milliseconds since the Unix epoch.
    pub open spec fn spec_unix_milliseconds(self) -> int {
        self.seconds as int * 1000 + self.spec_millisecond()
    }

    /// The milliseconds of the running second.
    pub fn millisecond(&self) -> (res: u32)
        ensures
            res == self.spec_millisecond(),
            self.wf() ==> res < 1000,
    {
        self.nanoseconds / 1_000_000
    }
}

/// The number that four bytes stand for, least significant byte first, as
/// an unsigned number.
pub open spec fn spec_le_u32(b0: u8, b1: u8, b2: u8, b3: u8) -> int {
    b0 as int + 256 * b1 as int + 65536 * b2 as int + 16777216 * b3 as int
}

/// The number that four bytes stand for, most significant byte first.
pub open spec fn spec_be_u32(b0: u8, b1: u8, b2: u8, b3: u8) -> int {
    spec_le_u32(b3, b2, b1, b0)
}

/// An unsigned 32-bit number read as a signed one in two's complement.
pub open spec fn spec_signed(value: int) -> int {
    if value >= 0x8000_0000 {
        value - 0x1_0000_0000
    } else {
        value
    }
}

/// The low 32 bits of a number in two's complement, as an unsigned number.
pub fn low_32_bits(value: i64) -> (res: i64)
    ensures
        res == value as int % 0x1_0000_0000,
        0 <= res < 0x1_0000_0000,
{
    if value >= 0 {
        value % 0x1_0000_0000
    } else {
        let below: i64 = (-(value + 1)) % 0x1_0000_0000;
        assert((value as int) % 0x1_0000_0000 == 0xffff_ffff - below) by {
            let q = (-(value + 1)) / 0x1_0000_0000;
            assert(-(value + 1) == q * 0x1_0000_0000 + below);
            assert(value as int == (-q - 1) * 0x1_0000_0000 + (0xffff_ffff - below));
            vstd::arithmetic::div_mod::lemma_fundamental_div_mod_converse(
                value as int,
                0x1_0000_0000,
                -q - 1,
                0xffff_ffff - below,
            );
        }
        0xffff_ffff - below
    }
}

/// Division that rounds toward zero.
pub open spec fn spec_div_toward_zero(value: int, divisor: int) -> int {
    if value >= 0 {
        value / divisor
    } else {
        -((-value) / divisor)
    }
}

/// Reads four bytes as a number, least significant byte first.
pub fn le_u32(b0: u8, b1: u8, b2: u8, b3: u8) -> (res: u32)
    ensures
        res == spec_le_u32(b0, b1, b2, b3),
{
    (b0 as u32) + 256 * (b1 as u32) + 65536 * (b2 as u32) + 16777216 * (b3 as u32)
}

/// Reads an unsigned 32-bit number as a signed one in two's complement.
pub fn signed(value: u32) -> (res: i64)
    ensures
        res == spec_signed(value as int),
        -0x8000_0000 <= res < 0x8000_0000,
{
    if value >= 0x8000_0000 {
        value as i64 - 0x1_0000_0000
    } else {
        value as i64
    }
}

/// The seconds that the eight bytes of a UTC time give: the first four
/// bytes, least significant first and signed, count thousands; the next
/// three, shifted up by one byte and divided by 16777, are added.
pub open spec fn spec_utc_time_seconds(bytes: Seq<u8>) -> int {
    spec_signed(spec_le_u32(bytes[0], bytes[1], bytes[2], bytes[3])) * 1000
        + spec_div_toward_zero(spec_signed(spec_le_u32(0, bytes[4], bytes[5], bytes[6])), 16777)
}

/// The time that the bytes of a binary time give, in milliseconds since
/// the Unix epoch: the first four bytes count the milliseconds of the day;
/// with six bytes the last two count the days since 1984-01-01.
pub open spec fn spec_binary_time_milliseconds(bytes: Seq<u8>) -> int {
    spec_be_u32(bytes[0], bytes[1], bytes[2], bytes[3]) + if bytes.len() == 6 {
        (256 * bytes[4] as int + bytes[5] as int) * MILLISECONDS_PER_DAY
            + MMS_TO_UNIX_EPOCH_OFFSET
    } else {
        0
    }
}

/// The milliseconds since 1984-01-01 that a time gives as binary time: none
/// before that day.
pub open spec fn spec_mms_milliseconds(time: Timestamp) -> int {
    if time.spec_unix_milliseconds() > MMS_TO_UNIX_EPOCH_OFFSET {
        time.spec_unix_milliseconds() - MMS_TO_UNIX_EPOCH_OFFSET
    } else {
        0
    }
}

/// The six bytes of a binary time: the milliseconds of the day in four
/// bytes and the days since 1984-01-01 in two (modulo 65536), most
/// significant byte first.
pub open spec fn spec_binary_time_bytes(time: Timestamp) -> Seq<u8> {
    let day = spec_mms_milliseconds(time) % (MILLISECONDS_PER_DAY as int);
    let days = (spec_mms_milliseconds(time) / (MILLISECONDS_PER_DAY as int)) % 65536;
    seq![
        (day / 16777216) as u8,
        ((day / 65536) % 256) as u8,
        ((day / 256) % 256) as u8,
        (day % 256) as u8,
        (days / 256) as u8,
        (days % 256) as u8,
    ]
}

/// The fraction of a second that a UTC time carries for a millisecond.
pub open spec fn spec_fraction(millisecond: int) -> int {
    millisecond * 16777 + (millisecond * 216) / 1000
}

/// The eight bytes of a UTC time: the seconds since the Unix epoch in four
/// bytes (modulo 2^32), the fraction of the second in three, both least
/// significant byte first, and a quality byte of zero.
pub open spec fn spec_utc_time_bytes(time: Timestamp) -> Seq<u8> {
    let seconds = time.seconds as int % 0x1_0000_0000;
    let fraction = spec_fraction(time.spec_millisecond());
    seq![
        (seconds % 256) as u8,
        ((seconds / 256) % 256) as u8,
        ((seconds / 65536) % 256) as u8,
        (seconds / 16777216) as u8,
        (fraction % 256) as u8,
        ((fraction / 256) % 256) as u8,
        ((fraction / 65536) % 256) as u8,
        0u8,
    ]
}

impl Timestamp {
    /// Reads the eight bytes of a UTC time. The number they give is taken
    /// as seconds since the Unix epoch; outside the years -9999 to 9999 it is
    /// an invalid timestamp.
    pub fn from_utc_time(bytes: &[u8; 8]) -> (res: Result<Timestamp, Iec61850DataError>)
        ensures
            match res {
                Ok(time) => time.seconds == spec_utc_time_seconds(bytes@) && time.nanoseconds == 0
                    && -377_705_116_800 <= time.seconds <= 253_402_300_799,
                Err(e) => e == Iec61850DataError::InvalidTimestamp && !(-377_705_116_800
                    <= spec_utc_time_seconds(bytes@) <= 253_402_300_799),
            },
    {
        let seconds: i64 = signed(le_u32(bytes[0], bytes[1], bytes[2], bytes[3]));
        let raw: i64 = signed(le_u32(0, bytes[4], bytes[5], bytes[6]));
        let milliseconds: i64 = if raw >= 0 {
            raw / 16777
        } else {
            -((-raw) / 16777)
        };
        let timestamp: i64 = seconds * 1000 + milliseconds;
        match unix_timestamp_check(timestamp) {
            Ok(seconds) => Ok(Timestamp { seconds, nanoseconds: 0 }),
            Err(_) => Err(Iec61850DataError::InvalidTimestamp),
        }
    }

    /// Writes the time as the eight bytes of a UTC time.
    pub fn to_utc_time(&self) -> (res: [u8; 8])
        requires
            self.wf(),
        ensures
            res@ == spec_utc_time_bytes(*self),
    {
        let seconds: i64 = low_32_bits(self.seconds);
        let millisecond: u32 = self.millisecond();
        let fraction: u32 = millisecond * 16777 + (millisecond * 216) / 1000;
        let out: [u8; 8] = [
            (seconds % 256) as u8,
            ((seconds / 256) % 256) as u8,
            ((seconds / 65536) % 256) as u8,
            (seconds / 16777216) as u8,
            (fraction % 256) as u8,
            ((fraction / 256) % 256) as u8,
            ((fraction / 65536) % 256) as u8,
            0,
        ];
        assert(out@ =~= spec_utc_time_bytes(*self));
        out
    }

    /// Reads the bytes of a binary time: four bytes of the milliseconds of
    /// the day, and with six bytes also the days since 1984-01-01. Fewer
    /// than four bytes are missing data.
    pub fn from_binary_time(bytes: &[u8]) -> (res: Result<Timestamp, Iec61850DataError>)
        ensures
            match res {
                Ok(time) => {
                    &&& bytes@.len() >= 4
                    &&& time.seconds == spec_binary_time_milliseconds(bytes@) / 1000
                    &&& time.nanoseconds == (spec_binary_time_milliseconds(bytes@) % 1000)
                        * 1_000_000
                    &&& time.spec_unix_milliseconds() == spec_binary_time_milliseconds(bytes@)
                    &&& time.wf()
                },
                Err(e) => e == Iec61850DataError::MissingData && bytes@.len() < 4,
            },
    {
        if bytes.len() < 4 {
            return Err(Iec61850DataError::MissingData);
        }
        let mut milliseconds: i64 = if bytes.len() == 6 {
            (256 * (bytes[4] as i64) + bytes[5] as i64) * MILLISECONDS_PER_DAY
                + MMS_TO_UNIX_EPOCH_OFFSET
        } else {
            0
        };
        milliseconds = milliseconds + le_u32(bytes[3], bytes[2], bytes[1], bytes[0]) as i64;
        let seconds: i64 = milliseconds / 1000;
        let rest: i64 = milliseconds % 1000;
        match unix_timestamp_check(seconds) {
            Ok(seconds) => Ok(Timestamp { seconds, nanoseconds: (rest * 1_000_000) as u32 }),
            // Such a time always lies within the range that the check admits.
            Err(_) => Err(Iec61850DataError::InvalidTimestamp),
        }
    }

    /// Writes the time as the six bytes of a binary time. A time before
    /// 1984-01-01 gives that day's start.
    pub fn to_binary_time(&self) -> (res: Vec<u8>)
        requires
            self.wf(),
            -9_000_000_000_000_000 <= self.seconds <= 9_000_000_000_000_000,
        ensures
            res@ == spec_binary_time_bytes(*self),
    {
        let milliseconds_from_unix_epoch: i64 = self.seconds * 1000 + self.millisecond() as i64;
        let mms_time: i64 = if milliseconds_from_unix_epoch > MMS_TO_UNIX_EPOCH_OFFSET {
            milliseconds_from_unix_epoch - MMS_TO_UNIX_EPOCH_OFFSET
        } else {
            0
        };
        let day: i64 = mms_time % MILLISECONDS_PER_DAY;
        let days: i64 = (mms_time / MILLISECONDS_PER_DAY) % 65536;
        let mut buff: Vec<u8> = Vec::new();
        buff.push((day / 16777216) as u8);
        buff.push(((day / 65536) % 256) as u8);
        buff.push(((day / 256) % 256) as u8);
        buff.push((day % 256) as u8);
        buff.push((days / 256) as u8);
        buff.push((days % 256) as u8);
        assert(buff@ =~= spec_binary_time_bytes(*self));
        buff
    }
}

/// The bits of a floating point number that the five bytes of its MMS form
/// give: the last four bytes, least significant first. The first byte, the
/// width of the exponent, is not looked at.
pub open spec fn spec_floating_point_bits(bytes: Seq<u8>) -> int {
    spec_le_u32(
        bytes[bytes.len() - 4],
        bytes[bytes.len() - 3],
        bytes[bytes.len() - 2],
        bytes[bytes.len() - 1],
    )
}

/// Reads the MMS form of a floating point number and gives its bits. Fewer
/// than four bytes are invalid data.
pub fn floating_point_bits(bytes: &[u8]) -> (res: Result<u32, Iec61850DataError>)
    ensures
        match res {
            Ok(bits) => bytes@.len() >= 4 && bits == spec_floating_point_bits(bytes@),
            Err(e) => bytes@.len() < 4 && e == Iec61850DataError::InvalidData,
        },
{
    let n: usize = bytes.len();
    if n < 4 {
        return Err(Iec61850DataError::InvalidData);
    }
    Ok(le_u32(bytes[n - 4], bytes[n - 3], bytes[n - 2], bytes[n - 1]))
}

/// Writes the bits of a floating point number in its MMS form: a zero byte
/// and the four bytes of the bits, least significant first.
pub fn floating_point_bytes(bits: u32) -> (res: Vec<u8>)
    ensures
        res@.len() == 5,
        res@[0] == 0,
        spec_floating_point_bits(res@) == bits,
{
    let mut out: Vec<u8> = Vec::new();
    out.push(0);
    out.push((bits % 256) as u8);
    out.push(((bits / 256) % 256) as u8);
    out.push(((bits / 65536) % 256) as u8);
    out.push((bits / 16777216) as u8);
    out
}

/// Narrows an MMS integer to 32 bits. A number outside is invalid data.
pub fn from_integer_to_i32(integer: i128) -> (res: Result<i32, Iec61850DataError>)
    ensures
        match res {
            Ok(value) => value == integer,
            Err(e) => e == Iec61850DataError::InvalidData && !(i32::MIN <= integer <= i32::MAX),
        },
{
    if integer < -0x8000_0000 || integer > 0x7fff_ffff {
        Err(Iec61850DataError::InvalidData)
    } else {
        Ok(integer as i32)
    }
}

/// Narrows an unsigned MMS integer to 32 bits. A number outside is invalid
/// data.
pub fn from_unsigned_to_u32(unsigned: i128) -> (res: Result<u32, Iec61850DataError>)
    ensures
        match res {
            Ok(value) => value == unsigned,
            Err(e) => e == Iec61850DataError::InvalidData && !(0 <= unsigned <= u32::MAX),
        },
{
    if unsigned < 0 || unsigned > 0xffff_ffff {
        Err(Iec61850DataError::InvalidData)
    } else {
        Ok(unsigned as u32)
    }
}

/// The value of a bit: 1 if it is set.
pub open spec fn spec_bit_value(bit: bool) -> int {
    if bit {
        1
    } else {
        0
    }
}

/// The bit at a position of a sequence, or an unset bit beyond its end.
pub open spec fn spec_bit_at(bits: Seq<bool>, k: int) -> int {
    if 0 <= k < bits.len() {
        spec_bit_value(bits[k])
    } else {
        0
    }
}

/// The byte that holds the bits `8 * j` to `8 * j + 7` of a sequence, the
/// first of them as its least significant bit.
pub open spec fn spec_packed_byte(bits: Seq<bool>, j: int) -> int {
    spec_bit_at(bits, 8 * j) + 2 * spec_bit_at(bits, 8 * j + 1) + 4 * spec_bit_at(bits, 8 * j + 2)
        + 8 * spec_bit_at(bits, 8 * j + 3) + 16 * spec_bit_at(bits, 8 * j + 4) + 32 * spec_bit_at(
        bits,
        8 * j + 5,
    ) + 64 * spec_bit_at(bits, 8 * j + 6) + 128 * spec_bit_at(bits, 8 * j + 7)
}

/// The bytes that hold a sequence of bits, eight to a byte, the first bit
/// of each eight as the least significant.
pub open spec fn spec_packed(bits: Seq<bool>) -> Seq<u8> {
    Seq::new(((bits.len() + 7) / 8) as nat, |j: int| spec_packed_byte(bits, j) as u8)
}

/// A byte with the order of its bits turned round.
pub open spec fn spec_reverse_byte(byte: u8) -> int {
    128 * (byte as int % 2) + 64 * (byte as int / 2 % 2) + 32 * (byte as int / 4 % 2) + 16 * (
    byte as int / 8 % 2) + 8 * (byte as int / 16 % 2) + 4 * (byte as int / 32 % 2) + 2 * (byte as int
        / 64 % 2) + (byte as int / 128 % 2)
}

/// Bytes with the order of the bits of each turned round.
pub open spec fn spec_reversed(bytes: Seq<u8>) -> Seq<u8> {
    Seq::new(bytes.len(), |j: int| spec_reverse_byte(bytes[j]) as u8)
}

/// Turns the order of the bits of a byte round.
pub fn reverse_byte(byte: u8) -> (res: u8)
    ensures
        res == spec_reverse_byte(byte),
{
    128 * (byte % 2) + 64 * (byte / 2 % 2) + 32 * (byte / 4 % 2) + 16 * (byte / 8 % 2) + 8 * (byte
        / 16 % 2) + 4 * (byte / 32 % 2) + 2 * (byte / 64 % 2) + (byte / 128 % 2)
}

impl Bitstring {
    /// Packs bits into bytes, eight to a byte and the first of each eight
    /// as the least significant bit, and notes how many bits of the given
    /// capacity are unused (modulo 256).
    pub fn from_bits(bits: &[bool], capacity: usize) -> (res: Self)
        requires
            bits@.len() <= capacity,
        ensures
            res.bytes@ == spec_packed(bits@),
            res.padding == (capacity - bits@.len()) % 256,
    {
        let n: usize = bits.len();
        let count: usize = if n % 8 == 0 {
            n / 8
        } else {
            n / 8 + 1
        };
        let mut bytes: Vec<u8> = Vec::new();
        let mut chunk: usize = 0;
        proof {
            vstd::arithmetic::power2::lemma2_to64();
        }
        while chunk < count
            invariant
                n == bits@.len(),
                count == (n + 7) / 8,
                chunk <= count,
                bytes@.len() == chunk,
                forall|j: int|
                    0 <= j < bytes@.len() ==> #[trigger] bytes@[j] == spec_packed_byte(bits@, j),
            decreases count - chunk,
        {
            let start: usize = 8 * chunk;
            let mut b: u8 = 0;
            let mut weight: u8 = 1;
            let mut i: usize = 0;
            let ghost j: int = chunk as int;
            let ghost mut sum: int = 0;
            proof {
                vstd::arithmetic::power2::lemma2_to64();
            }
            while i < 8
                invariant
                    n == bits@.len(),
                    start < n,
                    start == 8 * j,
                    i <= 8,
                    b == sum,
                    i < 8 ==> weight == vstd::arithmetic::power2::pow2(i as nat),
                    i == 0 ==> sum == 0,
                    i == 1 ==> sum == spec_bit_at(bits@, 8 * j),
                    i == 2 ==> sum == spec_bit_at(bits@, 8 * j) + 2 * spec_bit_at(bits@, 8 * j + 1),
                    i == 3 ==> sum == spec_bit_at(bits@, 8 * j) + 2 * spec_bit_at(bits@, 8 * j + 1)
                        + 4 * spec_bit_at(bits@, 8 * j + 2),
                    i == 4 ==> sum == spec_bit_at(bits@, 8 * j) + 2 * spec_bit_at(bits@, 8 * j + 1)
                        + 4 * spec_bit_at(bits@, 8 * j + 2) + 8 * spec_bit_at(bits@, 8 * j + 3),
                    i == 5 ==> sum == spec_bit_at(bits@, 8 * j) + 2 * spec_bit_at(bits@, 8 * j + 1)
                        + 4 * spec_bit_at(bits@, 8 * j + 2) + 8 * spec_bit_at(bits@, 8 * j + 3) + 16
                        * spec_bit_at(bits@, 8 * j + 4),
                    i == 6 ==> sum == spec_bit_at(bits@, 8 * j) + 2 * spec_bit_at(bits@, 8 * j + 1)
                        + 4 * spec_bit_at(bits@, 8 * j + 2) + 8 * spec_bit_at(bits@, 8 * j + 3) + 16
                        * spec_bit_at(bits@, 8 * j + 4) + 32 * spec_bit_at(bits@, 8 * j + 5),
                    i == 7 ==> sum == spec_bit_at(bits@, 8 * j) + 2 * spec_bit_at(bits@, 8 * j + 1)
                        + 4 * spec_bit_at(bits@, 8 * j + 2) + 8 * spec_bit_at(bits@, 8 * j + 3) + 16
                        * spec_bit_at(bits@, 8 * j + 4) + 32 * spec_bit_at(bits@, 8 * j + 5) + 64
                        * spec_bit_at(bits@, 8 * j + 6),
                    i == 8 ==> sum == spec_packed_byte(bits@, j),
                decreases 8 - i,
            {
                proof {
                    vstd::arithmetic::power2::lemma2_to64();
                }
                let set: bool = i < n - start && bits[start + i];
                if set {
                    proof {
                        sum = sum + weight as int;
                    }
                    b = b + weight;
                }
                if i < 7 {
                    weight = weight * 2;
                }
                i = i + 1;
            }
            bytes.push(b);
            chunk = chunk + 1;
        }
        assert(bytes@ =~= spec_packed(bits@));
        Self { bytes, padding: ((capacity - n) % 256) as u8 }
    }

    /// The number of bits that the bit string holds: eight for each byte
    /// less the padding.
    pub open spec fn spec_bit_len(self) -> int {
        8 * self.bytes@.len() - self.padding
    }

    /// Unpacks the bytes into bits: each byte with the order of its bits
    /// turned round, most significant bit first, without the padding.
    pub fn to_bits(&self) -> (res: Vec<bool>)
        requires
            self.bytes@.len() <= usize::MAX / 64,
            self.padding <= 8 * self.bytes@.len(),
        ensures
            res@ == crate::mms::codec::spec_bits(
                spec_reversed(self.bytes@),
                self.spec_bit_len() as nat,
            ),
            res@.len() == self.spec_bit_len(),
    {
        let mut reversed: Vec<u8> = Vec::new();
        let mut j: usize = 0;
        while j < self.bytes.len()
            invariant
                j <= self.bytes@.len(),
                reversed@.len() == j,
                forall|k: int|
                    0 <= k < j ==> #[trigger] reversed@[k] == spec_reverse_byte(self.bytes@[k]),
            decreases self.bytes@.len() - j,
        {
            reversed.push(reverse_byte(self.bytes[j]));
            j = j + 1;
        }
        assert(reversed@ =~= spec_reversed(self.bytes@));
        let length: usize = 8 * self.bytes.len() - self.padding as usize;
        crate::mms::client::make_bitstring(reversed.as_slice(), length)
    }
}

impl Iec61850Data {
    /// The boolean that the value holds.
    pub open spec fn spec_bool(self) -> Result<bool, Iec61850DataError> {
        match self {
            Iec61850Data::Bool(value) => Ok(value),
            _ => Err(Iec61850DataError::InvalidData),
        }
    }

    /// The unsigned integer that the value holds.
    pub open spec fn spec_u32(self) -> Result<u32, Iec61850DataError> {
        match self {
            Iec61850Data::Unsigned(value) => Ok(value),
            _ => Err(Iec61850DataError::InvalidData),
        }
    }

    /// The integer that the value holds.
    pub open spec fn spec_i32(self) -> Result<i32, Iec61850DataError> {
        match self {
            Iec61850Data::Integer(value) => Ok(value),
            _ => Err(Iec61850DataError::InvalidData),
        }
    }

    /// The octets that the value holds.
    pub open spec fn spec_octets(self) -> Result<Vec<u8>, Iec61850DataError> {
        match self {
            Iec61850Data::OctetString(value) => Ok(value),
            _ => Err(Iec61850DataError::InvalidData),
        }
    }

    /// The bit string that the value holds.
    pub open spec fn spec_bitstring(self) -> Result<Bitstring, Iec61850DataError> {
        match self {
            Iec61850Data::BitString(value) => Ok(value),
            _ => Err(Iec61850DataError::InvalidData),
        }
    }

    /// The string that the value holds, be it a visible or an MMS string.
    pub open spec fn spec_string(self) -> Result<String, Iec61850DataError> {
        match self {
            Iec61850Data::String(value) => Ok(value),
            Iec61850Data::MMSString(value) => Ok(value),
            _ => Err(Iec61850DataError::InvalidData),
        }
    }

    /// The time that the value holds, be it a UTC or a binary time.
    pub open spec fn spec_time(self) -> Result<Timestamp, Iec61850DataError> {
        match self {
            Iec61850Data::UtcTime(value) => Ok(value),
            Iec61850Data::BinaryTime(value) => Ok(value),
            _ => Err(Iec61850DataError::InvalidData),
        }
    }

    /// The bits of the floating point number that the value holds.
    pub open spec fn spec_floating_point(self) -> Result<u32, Iec61850DataError> {
        match self {
            Iec61850Data::FloatingPoint(value) => Ok(value),
            _ => Err(Iec61850DataError::InvalidData),
        }
    }

    /// Takes the bits of the floating point number out of the value.
    pub fn into_floating_point(self) -> (res: Result<u32, Iec61850DataError>)
        ensures
            res == self.spec_floating_point(),
    {
        match self {
            Iec61850Data::FloatingPoint(value) => Ok(value),
            _ => Err(Iec61850DataError::InvalidData),
        }
    }
}

impl TryFrom<Iec61850Data> for bool {
    type Error = Iec61850DataError;

    fn try_from(value: Iec61850Data) -> (res: Result<bool, Iec61850DataError>) {
        match value {
            Iec61850Data::Bool(value) => Ok(value),
            _ => Err(Iec61850DataError::InvalidData),
        }
    }
}

impl vstd::std_specs::convert::TryFromSpecImpl<Iec61850Data> for bool {
    open spec fn obeys_try_from_spec() -> bool {
        true
    }

    open spec fn try_from_spec(value: Iec61850Data) -> Result<bool, Iec61850DataError> {
        value.spec_bool()
    }
}

impl TryFrom<Iec61850Data> for u32 {
    type Error = Iec61850DataError;

    fn try_from(value: Iec61850Data) -> (res: Result<u32, Iec61850DataError>) {
        match value {
            Iec61850Data::Unsigned(value) => Ok(value),
            _ => Err(Iec61850DataError::InvalidData),
        }
    }
}

impl vstd::std_specs::convert::TryFromSpecImpl<Iec61850Data> for u32 {
    open spec fn obeys_try_from_spec() -> bool {
        true
    }

    open spec fn try_from_spec(value: Iec61850Data) -> Result<u32, Iec61850DataError> {
        value.spec_u32()
    }
}

impl TryFrom<Iec61850Data> for i32 {
    type Error = Iec61850DataError;

    fn try_from(value: Iec61850Data) -> (res: Result<i32, Iec61850DataError>) {
        match value {
            Iec61850Data::Integer(value) => Ok(value),
            _ => Err(Iec61850DataError::InvalidData),
        }
    }
}

impl vstd::std_specs::convert::TryFromSpecImpl<Iec61850Data> for i32 {
    open spec fn obeys_try_from_spec() -> bool {
        true
    }

    open spec fn try_from_spec(value: Iec61850Data) -> Result<i32, Iec61850DataError> {
        value.spec_i32()
    }
}

impl TryFrom<Iec61850Data> for Vec<u8> {
    type Error = Iec61850DataError;

    fn try_from(value: Iec61850Data) -> (res: Result<Vec<u8>, Iec61850DataError>) {
        match value {
            Iec61850Data::OctetString(value) => Ok(value),
            _ => Err(Iec61850DataError::InvalidData),
        }
    }
}

impl vstd::std_specs::convert::TryFromSpecImpl<Iec61850Data> for Vec<u8> {
    open spec fn obeys_try_from_spec() -> bool {
        true
    }

    open spec fn try_from_spec(value: Iec61850Data) -> Result<Vec<u8>, Iec61850DataError> {
        value.spec_octets()
    }
}

impl TryFrom<Iec61850Data> for Bitstring {
    type Error = Iec61850DataError;

    fn try_from(value: Iec61850Data) -> (res: Result<Bitstring, Iec61850DataError>) {
        match value {
            Iec61850Data::BitString(value) => Ok(value),
            _ => Err(Iec61850DataError::InvalidData),
        }
    }
}

impl vstd::std_specs::convert::TryFromSpecImpl<Iec61850Data> for Bitstring {
    open spec fn obeys_try_from_spec() -> bool {
        true
    }

    open spec fn try_from_spec(value: Iec61850Data) -> Result<Bitstring, Iec61850DataError> {
        value.spec_bitstring()
    }
}

impl TryFrom<Iec61850Data> for String {
    type Error = Iec61850DataError;

    fn try_from(value: Iec61850Data) -> (res: Result<String, Iec61850DataError>) {
        match value {
            Iec61850Data::String(value) => Ok(value),
            Iec61850Data::MMSString(value) => Ok(value),
            _ => Err(Iec61850DataError::InvalidData),
        }
    }
}

impl vstd::std_specs::convert::TryFromSpecImpl<Iec61850Data> for String {
    open spec fn obeys_try_from_spec() -> bool {
        true
    }

    open spec fn try_from_spec(value: Iec61850Data) -> Result<String, Iec61850DataError> {
        value.spec_string()
    }
}

impl TryFrom<Iec61850Data> for Timestamp {
    type Error = Iec61850DataError;

    fn try_from(value: Iec61850Data) -> (res: Result<Timestamp, Iec61850DataError>) {
        match value {
            Iec61850Data::UtcTime(value) => Ok(value),
            Iec61850Data::BinaryTime(value) => Ok(value),
            _ => Err(Iec61850DataError::InvalidData),
        }
    }
}

impl vstd::std_specs::convert::TryFromSpecImpl<Iec61850Data> for Timestamp {
    open spec fn obeys_try_from_spec() -> bool {
        true
    }

    open spec fn try_from_spec(value: Iec61850Data) -> Result<Timestamp, Iec61850DataError> {
        value.spec_time()
    }
}

} // verus!
