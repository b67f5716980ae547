//! The conversion of MMS data values into IEC 61850 data values.

use vstd::prelude::*;
use vstd::utf8::encode_utf8;
use crate::iec61850::data::floating_point_bytes;
use crate::iec61850::data::spec_binary_time_bytes;
use crate::iec61850::data::spec_reversed;
use crate::iec61850::data::spec_utc_time_bytes;
use crate::mms::codec::spec_visible;
use crate::mms::codec::visible_string_check;
use crate::iec61850::data::Bitstring;
use crate::iec61850::data::Iec61850Data;
use crate::iec61850::data::Iec61850DataError;
use crate::iec61850::data::Timestamp;
use crate::iec61850::data::floating_point_bits;
use crate::iec61850::data::from_integer_to_i32;
use crate::iec61850::data::from_unsigned_to_u32;
use crate::iec61850::data::spec_binary_time_milliseconds;
use crate::iec61850::data::spec_floating_point_bits;
use crate::iec61850::data::spec_packed;
use crate::iec61850::data::spec_utc_time_seconds;

verus! {

/// An MMS data value in plain values, as the codec hands it over.
#[derive(Debug, PartialEq, Eq)]
pub enum MmsData {
    /// An array of values.
    Array(Vec<MmsData>),
    /// A structure of values.
    Structure(Vec<MmsData>),
    /// A boolean.
    Bool(bool),
    /// A bit string, bit by bit.
    BitString(Vec<bool>),
    /// An integer.
    Integer(i128),
    /// An unsigned integer.
    Unsigned(i128),
    /// A floating point number in its MMS form.
    FloatingPoint(Vec<u8>),
    /// An octet string.
    OctetString(Vec<u8>),
    /// A visible string.
    VisibleString(String),
    /// A binary time in its four or six bytes.
    BinaryTime(Vec<u8>),
    /// An MMS string.
    MmsString(String),
    /// A UTC time in its eight bytes.
    UtcTime([u8; 8]),
}

/// The ghost model of an IEC 61850 data value.
pub enum Iec61850DataView {
    /// An array of values.
    Array(Seq<Iec61850DataView>),
    /// A structure of values.
    Structure(Seq<Iec61850DataView>),
    /// A boolean.
    Bool(bool),
    /// A bit string: its bytes and its padding.
    BitString(Seq<u8>, u8),
    /// An integer.
    Integer(i32),
    /// An unsigned integer.
    Unsigned(u32),
    /// The bits of a floating point number.
    FloatingPoint(u32),
    /// An octet string.
    OctetString(Seq<u8>),
    /// A visible string.
    String(Seq<char>),
    /// A binary time.
    BinaryTime(Timestamp),
    /// An MMS string.
    MMSString(Seq<char>),
    /// A UTC time.
    UtcTime(Timestamp),
}

/// The model of an IEC 61850 data value: the value with the model of each
/// value that it holds.
pub open spec fn spec_data_view(value: Iec61850Data) -> Iec61850DataView
    decreases value,
{
    match value {
        Iec61850Data::Array(items) => Iec61850DataView::Array(
            Seq::new(
                items@.len(),
                |i: int|
                    if 0 <= i < items@.len() {
                        spec_data_view(items@[i])
                    } else {
                        arbitrary()
                    },
            ),
        ),
        Iec61850Data::Structure(items) => Iec61850DataView::Structure(
            Seq::new(
                items@.len(),
                |i: int|
                    if 0 <= i < items@.len() {
                        spec_data_view(items@[i])
                    } else {
                        arbitrary()
                    },
            ),
        ),
        Iec61850Data::Bool(b) => Iec61850DataView::Bool(b),
        Iec61850Data::BitString(bits) => Iec61850DataView::BitString(bits.bytes@, bits.padding),
        Iec61850Data::Integer(n) => Iec61850DataView::Integer(n),
        Iec61850Data::Unsigned(n) => Iec61850DataView::Unsigned(n),
        Iec61850Data::FloatingPoint(bits) => Iec61850DataView::FloatingPoint(bits),
        Iec61850Data::OctetString(bytes) => Iec61850DataView::OctetString(bytes@),
        Iec61850Data::String(text) => Iec61850DataView::String(text@),
        Iec61850Data::BinaryTime(time) => Iec61850DataView::BinaryTime(time),
        Iec61850Data::MMSString(text) => Iec61850DataView::MMSString(text@),
        Iec61850Data::UtcTime(time) => Iec61850DataView::UtcTime(time),
    }
}

impl View for Iec61850Data {
    type V = Iec61850DataView;

    open spec fn view(&self) -> Iec61850DataView {
        spec_data_view(*self)
    }
}

/// The views of a sequence of values.
pub open spec fn data_views(items: Seq<Iec61850Data>) -> Seq<Iec61850DataView> {
    Seq::new(items.len(), |i: int| items[i]@)
}

/// The number of unused bits in the last byte of a bit string of the given
/// length.
pub open spec fn spec_padding(bits: nat) -> int {
    (8 - bits % 8) % 8
}

/// The values that an array or a structure holds, none for other values.
pub open spec fn spec_items(value: MmsData) -> Seq<MmsData> {
    match value {
        MmsData::Array(items) => items@,
        MmsData::Structure(items) => items@,
        _ => Seq::empty(),
    }
}

/// Puts converted values in front of what the rest gives.
pub open spec fn spec_prepend(
    head: Seq<Iec61850DataView>,
    rest: Result<Seq<Iec61850DataView>, Iec61850DataError>,
) -> Result<Seq<Iec61850DataView>, Iec61850DataError> {
    match rest {
        Ok(tail) => Ok(head + tail),
        Err(e) => Err(e),
    }
}

/// What an MMS data value gives as an IEC 61850 data value. Arrays and
/// structures are converted value by value. Integers must fit 32 bits, a
/// floating point number needs four bytes, a binary time four, and a UTC
/// time must lie in the years that a date can hold.
pub open spec fn spec_from_mms(value: MmsData) -> Result<Iec61850DataView, Iec61850DataError>
    decreases value, 1nat, 0nat,
{
    match value {
        MmsData::Array(items) => match spec_from_mms_items(value, 0) {
            Ok(views) => Ok(Iec61850DataView::Array(views)),
            Err(e) => Err(e),
        },
        MmsData::Structure(items) => match spec_from_mms_items(value, 0) {
            Ok(views) => Ok(Iec61850DataView::Structure(views)),
            Err(e) => Err(e),
        },
        MmsData::Bool(b) => Ok(Iec61850DataView::Bool(b)),
        MmsData::BitString(bits) => Ok(
            Iec61850DataView::BitString(spec_packed(bits@), spec_padding(bits@.len()) as u8),
        ),
        MmsData::Integer(n) => if i32::MIN <= n <= i32::MAX {
            Ok(Iec61850DataView::Integer(n as i32))
        } else {
            Err(Iec61850DataError::InvalidData)
        },
        MmsData::Unsigned(n) => if 0 <= n <= u32::MAX {
            Ok(Iec61850DataView::Unsigned(n as u32))
        } else {
            Err(Iec61850DataError::InvalidData)
        },
        MmsData::FloatingPoint(bytes) => if bytes@.len() >= 4 {
            Ok(Iec61850DataView::FloatingPoint(spec_floating_point_bits(bytes@) as u32))
        } else {
            Err(Iec61850DataError::InvalidData)
        },
        MmsData::OctetString(bytes) => Ok(Iec61850DataView::OctetString(bytes@)),
        MmsData::VisibleString(text) => Ok(Iec61850DataView::String(text@)),
        MmsData::BinaryTime(bytes) => if bytes@.len() >= 4 {
            Ok(
                Iec61850DataView::BinaryTime(
                    Timestamp {
                        seconds: (spec_binary_time_milliseconds(bytes@) / 1000) as i64,
                        nanoseconds: ((spec_binary_time_milliseconds(bytes@) % 1000)
                            * 1_000_000) as u32,
                    },
                ),
            )
        } else {
            Err(Iec61850DataError::MissingData)
        },
        MmsData::MmsString(text) => Ok(Iec61850DataView::MMSString(text@)),
        MmsData::UtcTime(bytes) => if -377_705_116_800 <= spec_utc_time_seconds(bytes@)
            <= 253_402_300_799 {
            Ok(
                Iec61850DataView::UtcTime(
                    Timestamp { seconds: spec_utc_time_seconds(bytes@) as i64, nanoseconds: 0 },
                ),
            )
        } else {
            Err(Iec61850DataError::InvalidTimestamp)
        },
    }
}

/// What the values of an array or a structure give from the `i`-th on: all
/// of them converted, in order, or the error of the first that cannot be
/// converted.
pub open spec fn spec_from_mms_items(value: MmsData, i: int) -> Result<
    Seq<Iec61850DataView>,
    Iec61850DataError,
>
    decreases value, 0nat, spec_items(value).len() - i,
{
    if i < 0 || i >= spec_items(value).len() {
        Ok(Seq::empty())
    } else {
        match spec_from_mms(spec_items(value)[i]) {
            Ok(view) => spec_prepend(seq![view], spec_from_mms_items(value, i + 1)),
            Err(e) => Err(e),
        }
    }
}

/// The view of an array or a structure holds the views of its values.
pub proof fn lemma_view_of_list(values: Vec<Iec61850Data>)
    ensures
        Iec61850Data::Array(values)@ == Iec61850DataView::Array(data_views(values@)),
        Iec61850Data::Structure(values)@ == Iec61850DataView::Structure(data_views(values@)),
{
    let array = spec_data_view(Iec61850Data::Array(values));
    assert(array is Array);
    assert(array->Array_0 =~= data_views(values@));
    let structure = spec_data_view(Iec61850Data::Structure(values));
    assert(structure is Structure);
    assert(structure->Structure_0 =~= data_views(values@));
}

/// Converts the values of an array or a structure one by one.
fn convert_all(items: Vec<MmsData>, Ghost(parent): Ghost<MmsData>) -> (res: Result<
    Vec<Iec61850Data>,
    Iec61850DataError,
>)
    requires
        (parent matches MmsData::Array(v) && v == items) || (parent matches MmsData::Structure(v)
            && v == items),
    ensures
        match res {
            Ok(values) => spec_from_mms_items(parent, 0) == Ok::<
                Seq<Iec61850DataView>,
                Iec61850DataError,
            >(data_views(values@)),
            Err(e) => spec_from_mms_items(parent, 0) == Err::<
                Seq<Iec61850DataView>,
                Iec61850DataError,
            >(e),
        },
    decreases parent, 0nat, 0nat,
{
    let ghost all = items@;
    let ghost given = items;
    let mut values: Vec<Iec61850Data> = Vec::new();
    assert(data_views(values@) =~= Seq::empty());
    assert(spec_prepend(Seq::empty(), spec_from_mms_items(parent, 0)) == spec_from_mms_items(
        parent,
        0,
    )) by {
        let rest = spec_from_mms_items(parent, 0);
        if rest is Ok {
            assert(Seq::<Iec61850DataView>::empty() + rest->Ok_0 =~= rest->Ok_0);
        }
    }
    for item in it: items.into_iter()
        invariant
            it.seq() == all,
            all == given@,
            all == spec_items(parent),
            (parent matches MmsData::Array(v) && v == given) || (
            parent matches MmsData::Structure(v) && v == given),
            values@.len() == it.index(),
            spec_from_mms_items(parent, 0) == spec_prepend(
                data_views(values@),
                spec_from_mms_items(parent, it.index() as int),
            ),
    {
        let ghost index = it.index() as int;
        let ghost before = data_views(values@);
        assert(item == all[index]);
        proof {
            assert(decreases_to!(parent => given@[index]));
        }
        match Iec61850Data::from_mms(item) {
            Ok(value) => {
                values.push(value);
                proof {
                    let rest = spec_from_mms_items(parent, index + 1);
                    assert(data_views(values@) =~= before + seq![value@]);
                    if rest is Ok {
                        assert(before + (seq![value@] + rest->Ok_0) =~= (before + seq![value@])
                            + rest->Ok_0);
                    }
                }
            },
            Err(e) => {
                return Err(e);
            },
        }
    }
    proof {
        assert(data_views(values@) + Seq::<Iec61850DataView>::empty() =~= data_views(values@));
    }
    Ok(values)
}

/// Converts an MMS data value that is neither an array nor a structure.
fn from_mms_leaf(value: MmsData) -> (res: Result<Iec61850Data, Iec61850DataError>)
    requires
        !(value is Array),
        !(value is Structure),
    ensures
        match res {
            Ok(data) => spec_from_mms(value) == Ok::<Iec61850DataView, Iec61850DataError>(data@),
            Err(e) => spec_from_mms(value) == Err::<Iec61850DataView, Iec61850DataError>(e),
        },
{
    match value {
        MmsData::Bool(b) => Ok(Iec61850Data::Bool(b)),
        MmsData::BitString(bits) => {
            let n: usize = bits.len();
            let padding: usize = (8 - n % 8) % 8;
            let capacity: usize = if n <= usize::MAX - padding {
                n + padding
            } else {
                n
            };
            let packed: Bitstring = Bitstring::from_bits(bits.as_slice(), capacity);
            Ok(Iec61850Data::BitString(Bitstring { bytes: packed.bytes, padding: padding as u8 }))
        },
        MmsData::Integer(n) => match from_integer_to_i32(n) {
            Ok(v) => Ok(Iec61850Data::Integer(v)),
            Err(e) => Err(e),
        },
        MmsData::Unsigned(n) => match from_unsigned_to_u32(n) {
            Ok(v) => Ok(Iec61850Data::Unsigned(v)),
            Err(e) => Err(e),
        },
        MmsData::FloatingPoint(bytes) => match floating_point_bits(bytes.as_slice()) {
            Ok(bits) => Ok(Iec61850Data::FloatingPoint(bits)),
            Err(e) => Err(e),
        },
        MmsData::OctetString(bytes) => Ok(Iec61850Data::OctetString(bytes)),
        MmsData::VisibleString(text) => Ok(Iec61850Data::String(text)),
        MmsData::BinaryTime(bytes) => match Timestamp::from_binary_time(bytes.as_slice()) {
            Ok(time) => Ok(Iec61850Data::BinaryTime(time)),
            Err(e) => Err(e),
        },
        MmsData::MmsString(text) => Ok(Iec61850Data::MMSString(text)),
        MmsData::UtcTime(bytes) => match Timestamp::from_utc_time(&bytes) {
            Ok(time) => Ok(Iec61850Data::UtcTime(time)),
            Err(e) => Err(e),
        },
        _ => Err(Iec61850DataError::InvalidData),
    }
}

impl Iec61850Data {
    /// Converts an MMS data value.
    pub fn from_mms(value: MmsData) -> (res: Result<Self, Iec61850DataError>)
        ensures
            match res {
                Ok(data) => spec_from_mms(value) == Ok::<Iec61850DataView, Iec61850DataError>(
                    data@,
                ),
                Err(e) => spec_from_mms(value) == Err::<Iec61850DataView, Iec61850DataError>(e),
            },
        decreases value, 1nat, 0nat,
    {
        match value {
            MmsData::Array(items) => {
                match convert_all(items, Ghost(value)) {
                    Ok(values) => {
                        proof {
                            lemma_view_of_list(values);
                        }
                        Ok(Iec61850Data::Array(values))
                    },
                    Err(e) => Err(e),
                }
            },
            MmsData::Structure(items) => {
                match convert_all(items, Ghost(value)) {
                    Ok(values) => {
                        proof {
                            lemma_view_of_list(values);
                        }
                        Ok(Iec61850Data::Structure(values))
                    },
                    Err(e) => Err(e),
                }
            },
            leaf => from_mms_leaf(leaf),
        }
    }
}

/// The ghost model of an MMS data value.
pub enum MmsDataView {
    /// An array of values.
    Array(Seq<MmsDataView>),
    /// A structure of values.
    Structure(Seq<MmsDataView>),
    /// A boolean.
    Bool(bool),
    /// A bit string, bit by bit.
    BitString(Seq<bool>),
    /// An integer.
    Integer(i128),
    /// An unsigned integer.
    Unsigned(i128),
    /// A floating point number in its MMS form.
    FloatingPoint(Seq<u8>),
    /// An octet string.
    OctetString(Seq<u8>),
    /// A visible string.
    VisibleString(Seq<char>),
    /// A binary time in its bytes.
    BinaryTime(Seq<u8>),
    /// An MMS string.
    MmsString(Seq<char>),
    /// A UTC time in its bytes.
    UtcTime(Seq<u8>),
}

/// The model of an MMS data value: the value with the model of each value
/// that it holds.
pub open spec fn spec_mms_view(value: MmsData) -> MmsDataView
    decreases value,
{
    match value {
        MmsData::Array(items) => MmsDataView::Array(
            Seq::new(
                items@.len(),
                |i: int|
                    if 0 <= i < items@.len() {
                        spec_mms_view(items@[i])
                    } else {
                        arbitrary()
                    },
            ),
        ),
        MmsData::Structure(items) => MmsDataView::Structure(
            Seq::new(
                items@.len(),
                |i: int|
                    if 0 <= i < items@.len() {
                        spec_mms_view(items@[i])
                    } else {
                        arbitrary()
                    },
            ),
        ),
        MmsData::Bool(b) => MmsDataView::Bool(b),
        MmsData::BitString(bits) => MmsDataView::BitString(bits@),
        MmsData::Integer(n) => MmsDataView::Integer(n),
        MmsData::Unsigned(n) => MmsDataView::Unsigned(n),
        MmsData::FloatingPoint(bytes) => MmsDataView::FloatingPoint(bytes@),
        MmsData::OctetString(bytes) => MmsDataView::OctetString(bytes@),
        MmsData::VisibleString(text) => MmsDataView::VisibleString(text@),
        MmsData::BinaryTime(bytes) => MmsDataView::BinaryTime(bytes@),
        MmsData::MmsString(text) => MmsDataView::MmsString(text@),
        MmsData::UtcTime(bytes) => MmsDataView::UtcTime(bytes@),
    }
}

impl View for MmsData {
    type V = MmsDataView;

    open spec fn view(&self) -> MmsDataView {
        spec_mms_view(*self)
    }
}

/// The views of a sequence of MMS data values.
pub open spec fn mms_views(items: Seq<MmsData>) -> Seq<MmsDataView> {
    Seq::new(items.len(), |i: int| items[i]@)
}

/// The values that an array or a structure holds, none for other values.
pub open spec fn spec_data_items(value: Iec61850Data) -> Seq<Iec61850Data> {
    match value {
        Iec61850Data::Array(items) => items@,
        Iec61850Data::Structure(items) => items@,
        _ => Seq::empty(),
    }
}

/// Puts converted values in front of what the rest gives.
pub open spec fn spec_prepend_mms(
    head: Seq<MmsDataView>,
    rest: Result<Seq<MmsDataView>, Iec61850DataError>,
) -> Result<Seq<MmsDataView>, Iec61850DataError> {
    match rest {
        Ok(tail) => Ok(head + tail),
        Err(e) => Err(e),
    }
}

/// The MMS form of the bits of a floating point number: a zero byte and the
/// four bytes of the bits, least significant first.
pub open spec fn spec_floating_point_bytes(bits: u32) -> Seq<u8> {
    seq![
        0u8,
        (bits % 256) as u8,
        ((bits / 256) % 256) as u8,
        ((bits / 65536) % 256) as u8,
        (bits / 16777216) as u8,
    ]
}

/// Whether a bit string can be unpacked: its padding does not exceed its
/// bits, and its bytes are not more than a bit string can span.
pub open spec fn spec_bitstring_ok(bits: Bitstring) -> bool {
    bits.bytes@.len() <= usize::MAX / 64 && bits.padding <= 8 * bits.bytes@.len()
}

/// Whether a time can be written as a binary time.
pub open spec fn spec_binary_time_ok(time: Timestamp) -> bool {
    time.wf() && -9_000_000_000_000_000 <= time.seconds <= 9_000_000_000_000_000
}

/// What an IEC 61850 data value gives as an MMS data value. Arrays and
/// structures are converted value by value. A string must hold visible
/// characters only; a bit string must not have more padding than bits; a
/// time must be well formed.
pub open spec fn spec_to_mms(value: Iec61850Data) -> Result<MmsDataView, Iec61850DataError>
    decreases value, 1nat, 0nat,
{
    match value {
        Iec61850Data::Array(items) => match spec_to_mms_items(value, 0) {
            Ok(views) => Ok(MmsDataView::Array(views)),
            Err(e) => Err(e),
        },
        Iec61850Data::Structure(items) => match spec_to_mms_items(value, 0) {
            Ok(views) => Ok(MmsDataView::Structure(views)),
            Err(e) => Err(e),
        },
        Iec61850Data::Bool(b) => Ok(MmsDataView::Bool(b)),
        Iec61850Data::BitString(bits) => if spec_bitstring_ok(bits) {
            Ok(
                MmsDataView::BitString(
                    crate::mms::codec::spec_bits(
                        spec_reversed(bits.bytes@),
                        bits.spec_bit_len() as nat,
                    ),
                ),
            )
        } else {
            Err(Iec61850DataError::InvalidData)
        },
        Iec61850Data::Integer(n) => Ok(MmsDataView::Integer(n as i128)),
        Iec61850Data::Unsigned(n) => Ok(MmsDataView::Unsigned(n as i128)),
        Iec61850Data::FloatingPoint(bits) => Ok(
            MmsDataView::FloatingPoint(spec_floating_point_bytes(bits)),
        ),
        Iec61850Data::OctetString(bytes) => Ok(MmsDataView::OctetString(bytes@)),
        Iec61850Data::String(text) => if spec_visible(encode_utf8(text@)) {
            Ok(MmsDataView::VisibleString(text@))
        } else {
            Err(Iec61850DataError::InvalidStringConversion)
        },
        Iec61850Data::BinaryTime(time) => if spec_binary_time_ok(time) {
            Ok(MmsDataView::BinaryTime(spec_binary_time_bytes(time)))
        } else {
            Err(Iec61850DataError::InvalidTimestamp)
        },
        Iec61850Data::MMSString(text) => if spec_visible(encode_utf8(text@)) {
            Ok(MmsDataView::MmsString(text@))
        } else {
            Err(Iec61850DataError::InvalidStringConversion)
        },
        Iec61850Data::UtcTime(time) => if time.wf() {
            Ok(MmsDataView::UtcTime(spec_utc_time_bytes(time)))
        } else {
            Err(Iec61850DataError::InvalidTimestamp)
        },
    }
}

/// What the values of an array or a structure give from the `i`-th on: all
/// of them converted, in order, or the error of the first that cannot be
/// converted.
pub open spec fn spec_to_mms_items(value: Iec61850Data, i: int) -> Result<
    Seq<MmsDataView>,
    Iec61850DataError,
>
    decreases value, 0nat, spec_data_items(value).len() - i,
{
    if i < 0 || i >= spec_data_items(value).len() {
        Ok(Seq::empty())
    } else {
        match spec_to_mms(spec_data_items(value)[i]) {
            Ok(view) => spec_prepend_mms(seq![view], spec_to_mms_items(value, i + 1)),
            Err(e) => Err(e),
        }
    }
}

/// The view of an array or a structure holds the views of its values.
pub proof fn lemma_mms_view_of_list(values: Vec<MmsData>)
    ensures
        MmsData::Array(values)@ == MmsDataView::Array(mms_views(values@)),
        MmsData::Structure(values)@ == MmsDataView::Structure(mms_views(values@)),
{
    let array = spec_mms_view(MmsData::Array(values));
    assert(array is Array);
    assert(array->Array_0 =~= mms_views(values@));
    let structure = spec_mms_view(MmsData::Structure(values));
    assert(structure is Structure);
    assert(structure->Structure_0 =~= mms_views(values@));
}

/// Converts the values of an array or a structure one by one.
fn convert_all_to_mms(items: Vec<Iec61850Data>, Ghost(parent): Ghost<Iec61850Data>) -> (res:
    Result<Vec<MmsData>, Iec61850DataError>)
    requires
        (parent matches Iec61850Data::Array(v) && v == items) || (
        parent matches Iec61850Data::Structure(v) && v == items),
    ensures
        match res {
            Ok(values) => spec_to_mms_items(parent, 0) == Ok::<
                Seq<MmsDataView>,
                Iec61850DataError,
            >(mms_views(values@)),
            Err(e) => spec_to_mms_items(parent, 0) == Err::<Seq<MmsDataView>, Iec61850DataError>(
                e,
            ),
        },
    decreases parent, 0nat, 0nat,
{
    let ghost all = items@;
    let ghost given = items;
    let mut values: Vec<MmsData> = Vec::new();
    assert(mms_views(values@) =~= Seq::empty());
    assert(spec_prepend_mms(Seq::empty(), spec_to_mms_items(parent, 0)) == spec_to_mms_items(
        parent,
        0,
    )) by {
        let rest = spec_to_mms_items(parent, 0);
        if rest is Ok {
            assert(Seq::<MmsDataView>::empty() + rest->Ok_0 =~= rest->Ok_0);
        }
    }
    for item in it: items.into_iter()
        invariant
            it.seq() == all,
            all == given@,
            all == spec_data_items(parent),
            (parent matches Iec61850Data::Array(v) && v == given) || (
            parent matches Iec61850Data::Structure(v) && v == given),
            values@.len() == it.index(),
            spec_to_mms_items(parent, 0) == spec_prepend_mms(
                mms_views(values@),
                spec_to_mms_items(parent, it.index() as int),
            ),
    {
        let ghost index = it.index() as int;
        let ghost before = mms_views(values@);
        assert(item == all[index]);
        proof {
            assert(decreases_to!(parent => given@[index]));
        }
        match item.to_mms() {
            Ok(value) => {
                values.push(value);
                proof {
                    let rest = spec_to_mms_items(parent, index + 1);
                    assert(mms_views(values@) =~= before + seq![value@]);
                    if rest is Ok {
                        assert(before + (seq![value@] + rest->Ok_0) =~= (before + seq![value@])
                            + rest->Ok_0);
                    }
                }
            },
            Err(e) => {
                return Err(e);
            },
        }
    }
    proof {
        assert(mms_views(values@) + Seq::<MmsDataView>::empty() =~= mms_views(values@));
    }
    Ok(values)
}

/// Converts a bit string.
fn bits_to_mms(bits: Bitstring) -> (res: Result<MmsData, Iec61850DataError>)
    ensures
        match res {
            Ok(data) => spec_bitstring_ok(bits) && data@ == MmsDataView::BitString(
                crate::mms::codec::spec_bits(
                    spec_reversed(bits.bytes@),
                    bits.spec_bit_len() as nat,
                ),
            ),
            Err(e) => !spec_bitstring_ok(bits) && e == Iec61850DataError::InvalidData,
        },
{
    if bits.bytes.len() > usize::MAX / 64 || bits.padding as usize > 8 * bits.bytes.len() {
        Err(Iec61850DataError::InvalidData)
    } else {
        Ok(MmsData::BitString(bits.to_bits()))
    }
}

/// Checks that a string holds visible characters only.
fn text_is_visible(text: &String) -> (res: bool)
    ensures
        res == spec_visible(encode_utf8(text@)),
{
    match visible_string_check(text.as_str().as_bytes()) {
        Ok(()) => true,
        Err(_) => false,
    }
}

/// Converts a binary time.
fn binary_time_to_mms(time: Timestamp) -> (res: Result<MmsData, Iec61850DataError>)
    ensures
        match res {
            Ok(data) => spec_binary_time_ok(time) && data@ == MmsDataView::BinaryTime(
                spec_binary_time_bytes(time),
            ),
            Err(e) => !spec_binary_time_ok(time) && e == Iec61850DataError::InvalidTimestamp,
        },
{
    if time.nanoseconds >= 1_000_000_000 || time.seconds < -9_000_000_000_000_000 || time.seconds
        > 9_000_000_000_000_000 {
        Err(Iec61850DataError::InvalidTimestamp)
    } else {
        Ok(MmsData::BinaryTime(time.to_binary_time()))
    }
}

/// Converts a UTC time.
fn utc_time_to_mms(time: Timestamp) -> (res: Result<MmsData, Iec61850DataError>)
    ensures
        match res {
            Ok(data) => time.wf() && data@ == MmsDataView::UtcTime(spec_utc_time_bytes(time)),
            Err(e) => !time.wf() && e == Iec61850DataError::InvalidTimestamp,
        },
{
    if time.nanoseconds >= 1_000_000_000 {
        Err(Iec61850DataError::InvalidTimestamp)
    } else {
        Ok(MmsData::UtcTime(time.to_utc_time()))
    }
}

/// Converts the bits of a floating point number.
fn floating_point_to_mms(bits: u32) -> (res: MmsData)
    ensures
        res@ == MmsDataView::FloatingPoint(spec_floating_point_bytes(bits)),
{
    let bytes: Vec<u8> = floating_point_bytes(bits);
    assert(bytes@ =~= spec_floating_point_bytes(bits));
    MmsData::FloatingPoint(bytes)
}

/// Converts an IEC 61850 data value that is neither an array nor a
/// structure.
fn to_mms_leaf(value: Iec61850Data) -> (res: Result<MmsData, Iec61850DataError>)
    requires
        !(value is Array),
        !(value is Structure),
    ensures
        match res {
            Ok(data) => spec_to_mms(value) == Ok::<MmsDataView, Iec61850DataError>(data@),
            Err(e) => spec_to_mms(value) == Err::<MmsDataView, Iec61850DataError>(e),
        },
{
    match value {
        Iec61850Data::Bool(b) => Ok(MmsData::Bool(b)),
        Iec61850Data::BitString(bits) => bits_to_mms(bits),
        Iec61850Data::Integer(n) => Ok(MmsData::Integer(n as i128)),
        Iec61850Data::Unsigned(n) => Ok(MmsData::Unsigned(n as i128)),
        Iec61850Data::FloatingPoint(bits) => Ok(floating_point_to_mms(bits)),
        Iec61850Data::OctetString(bytes) => Ok(MmsData::OctetString(bytes)),
        Iec61850Data::String(text) => {
            if text_is_visible(&text) {
                Ok(MmsData::VisibleString(text))
            } else {
                Err(Iec61850DataError::InvalidStringConversion)
            }
        },
        Iec61850Data::BinaryTime(time) => binary_time_to_mms(time),
        Iec61850Data::MMSString(text) => {
            if text_is_visible(&text) {
                Ok(MmsData::MmsString(text))
            } else {
                Err(Iec61850DataError::InvalidStringConversion)
            }
        },
        Iec61850Data::UtcTime(time) => utc_time_to_mms(time),
        _ => Err(Iec61850DataError::InvalidData),
    }
}

impl Iec61850Data {
    /// Converts the value into an MMS data value.
    pub fn to_mms(self) -> (res: Result<MmsData, Iec61850DataError>)
        ensures
            match res {
                Ok(data) => spec_to_mms(self) == Ok::<MmsDataView, Iec61850DataError>(data@),
                Err(e) => spec_to_mms(self) == Err::<MmsDataView, Iec61850DataError>(e),
            },
        decreases self, 1nat, 0nat,
    {
        match self {
            Iec61850Data::Array(items) => {
                match convert_all_to_mms(items, Ghost(self)) {
                    Ok(values) => {
                        proof {
                            lemma_mms_view_of_list(values);
                        }
                        Ok(MmsData::Array(values))
                    },
                    Err(e) => Err(e),
                }
            },
            Iec61850Data::Structure(items) => {
                match convert_all_to_mms(items, Ghost(self)) {
                    Ok(values) => {
                        proof {
                            lemma_mms_view_of_list(values);
                        }
                        Ok(MmsData::Structure(values))
                    },
                    Err(e) => Err(e),
                }
            },
            leaf => to_mms_leaf(leaf),
        }
    }
}

} // verus!
