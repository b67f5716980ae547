//! What the ASN.1 codec accepts: the checks that the `rasn` crate makes when
//! a string, an object identifier or a bit string is built from plain
//! values. The functions that make the calls are believed, not verified;
//! their contracts restate what the source of `rasn` shows.

use vstd::prelude::*;

verus! {

/// The error with which `rasn` refuses the characters of a string.
#[verifier::external_type_specification]
#[verifier::external_body]
pub struct ExPermittedAlphabetError(rasn::error::strings::PermittedAlphabetError);

/// The bytes that a VisibleString may hold: space and the visible
/// characters of ISO 646.
pub open spec fn spec_visible_byte(byte: u8) -> bool {
    0x20 <= byte <= 0x7E
}

/// The bytes that a GraphicString may hold: those of a VisibleString and
/// the graphic characters of Latin-1.
pub open spec fn spec_graphic_byte(byte: u8) -> bool {
    0x20 <= byte <= 0x7E || 0xA1 <= byte
}

/// Whether every byte may stand in a VisibleString.
pub open spec fn spec_visible(bytes: Seq<u8>) -> bool {
    forall|i: int| 0 <= i < bytes.len() ==> spec_visible_byte(#[trigger] bytes[i])
}

/// Whether every byte may stand in a GraphicString.
pub open spec fn spec_graphic(bytes: Seq<u8>) -> bool {
    forall|i: int| 0 <= i < bytes.len() ==> spec_graphic_byte(#[trigger] bytes[i])
}

/// Whether arcs make an object identifier: there is a first arc, it is at
/// most 2, and below 2 it is followed, if at all, by an arc of at most 39.
pub open spec fn spec_valid_oid(arcs: Seq<u32>) -> bool {
    &&& arcs.len() >= 1
    &&& arcs[0] <= 2
    &&& (arcs[0] < 2 && arcs.len() >= 2 ==> arcs[1] <= 39)
}

/// The bit at position `i` of a byte string, the most significant bit of
/// each byte first.
pub open spec fn spec_bit(data: Seq<u8>, i: int) -> bool {
    (data[i / 8] as int / vstd::arithmetic::power2::pow2((7 - i % 8) as nat) as int) % 2 == 1
}

/// All the bits of a byte string, eight for each byte.
pub open spec fn spec_all_bits(data: Seq<u8>) -> Seq<bool> {
    Seq::new(8 * data.len(), |i: int| spec_bit(data, i))
}

/// The first `length` bits of a byte string, or all its bits if there are
/// fewer.
pub open spec fn spec_bits(data: Seq<u8>, length: nat) -> Seq<bool> {
    Seq::new(
        if length < 8 * data.len() {
            length
        } else {
            8 * data.len()
        },
        |i: int| spec_bit(data, i),
    )
}

/// Calls `rasn::types::VisibleString::from_iso646_bytes` and drops the
/// string. The contract claims that the call succeeds exactly when every
/// byte lies in 0x20..=0x7E, the character set of the type.
#[verifier::external_body]
pub(crate) fn visible_string_check(bytes: &[u8]) -> (res: Result<
    (),
    rasn::error::strings::PermittedAlphabetError,
>)
    ensures
        res is Ok <==> spec_visible(bytes@),
{
    match rasn::types::VisibleString::from_iso646_bytes(bytes) {
        Ok(_) => Ok(()),
        Err(e) => Err(e),
    }
}

/// Calls `rasn::types::GraphicString::from_bytes` and drops the string. The
/// contract claims that the call succeeds exactly when every byte lies in
/// 0x20..=0x7E or 0xA1..=0xFF, the character set of the type.
#[verifier::external_body]
pub(crate) fn graphic_string_check(bytes: &[u8]) -> (res: Result<
    (),
    rasn::error::strings::PermittedAlphabetError,
>)
    ensures
        res is Ok <==> spec_graphic(bytes@),
{
    match rasn::types::GraphicString::from_bytes(bytes) {
        Ok(_) => Ok(()),
        Err(e) => Err(e),
    }
}

/// Calls `rasn::types::ObjectIdentifier::new` and tells whether it gave an
/// identifier. The contract claims that it does so exactly for arcs that
/// pass the crate's validity test: not empty, first arc at most 2, and a
/// second arc of at most 39 after a first arc below 2.
#[verifier::external_body]
pub(crate) fn object_identifier_accepts(arcs: &[u32]) -> (res: bool)
    ensures
        res == spec_valid_oid(arcs@),
{
    rasn::types::ObjectIdentifier::new(arcs.to_vec()).is_some()
}

/// Calls `rasn::types::BitString::from_slice` and hands the bits of the
/// result out one by one. The contract claims that the bit string holds
/// eight bits for each byte, in the order of the bytes and the most
/// significant bit of each byte first. The bound on the input keeps the
/// number of bits below what a bit string can span, beyond which the call
/// panics.
#[verifier::external_body]
pub(crate) fn bit_string_bits(data: &[u8]) -> (res: Vec<bool>)
    requires
        data@.len() <= usize::MAX / 64,
    ensures
        res@ == spec_all_bits(data@),
{
    rasn::types::BitString::from_slice(data).iter().by_vals().collect()
}

/// The error with which `time` refuses a component out of range.
#[verifier::external_type_specification]
#[verifier::external_body]
pub struct ExComponentRange(time::error::ComponentRange);

/// The first second that a date can hold: the start of the year -9999.
pub const MIN_UNIX_TIMESTAMP: i64 = -377_705_116_800;

/// The last second that a date can hold: the end of the year 9999.
pub const MAX_UNIX_TIMESTAMP: i64 = 253_402_300_799;

/// Calls `time::OffsetDateTime::from_unix_timestamp` and
/// `unix_timestamp` on the result. The contract claims that the first
/// succeeds exactly for the seconds of the years -9999 to 9999, and that
/// the date it gives lies at the given second.
#[verifier::external_body]
pub(crate) fn unix_timestamp_check(timestamp: i64) -> (res: Result<
    i64,
    time::error::ComponentRange,
>)
    ensures
        res is Ok <==> MIN_UNIX_TIMESTAMP <= timestamp <= MAX_UNIX_TIMESTAMP,
        res matches Ok(seconds) ==> seconds == timestamp,
{
    match time::OffsetDateTime::from_unix_timestamp(timestamp) {
        Ok(date_time) => Ok(date_time.unix_timestamp()),
        Err(e) => Err(e),
    }
}

} // verus!
