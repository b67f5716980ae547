//! Reports: how the values of an information report are laid out and read.
//!
//! A report is a flat list of values. The first is the id of the report and
//! the second tells which optional fields follow. After those come the
//! inclusion bit string and, for every bit that is set in it, a data
//! reference (if asked for), a value, and a reason for transmission (if
//! asked for).

use vstd::prelude::*;
use crate::iec61850::convert::Iec61850DataView;
use crate::iec61850::convert::MmsData;
use crate::iec61850::convert::data_views;
use crate::iec61850::convert::spec_from_mms;
use crate::iec61850::data::Bitstring;
use crate::iec61850::data::Iec61850Data;
use crate::iec61850::data::Iec61850DataError;
use crate::iec61850::data::Timestamp;
use crate::iec61850::rcb::FieldError;
use crate::iec61850::rcb::Kind;
use crate::iec61850::rcb::spec_failure;
use crate::iec61850::rcb::OptionalFields;
use crate::iec61850::rcb::TriggerOptions;
use crate::iec61850::rcb::spec_err;
use crate::iec61850::rcb::spec_or;
use crate::mms::client::AccessResult;
use crate::mms::client::spec_first_failure;
use crate::mms::client::spec_successes;

verus! {

/// What can go wrong when a report is read.
#[derive(Debug, Clone, PartialEq, Eq)]
pub enum ReportError {
    /// The report has fewer than three values.
    InvalidReport,
    /// The values end before the field.
    MissingField { field: String },
    /// The value of the field is of another kind.
    InvalidConversion { field: String, source: Iec61850DataError },
    /// The server refused the access to a value, with this error code.
    FailedToConvertAccessResults { data_access_error: i64 },
    /// A value could not be converted.
    FailedToConvertData { source: Iec61850DataError },
}

/// The ghost model of the errors of a report.
pub enum ReportErrorView {
    /// The report has fewer than three values.
    InvalidReport,
    /// Something is wrong with a field.
    Field(FieldError),
    /// The server refused the access to a value.
    FailedToConvertAccessResults(i64),
    /// A value could not be converted.
    FailedToConvertData(Iec61850DataError),
}

impl View for ReportError {
    type V = ReportErrorView;

    open spec fn view(&self) -> ReportErrorView {
        match self {
            ReportError::InvalidReport => ReportErrorView::InvalidReport,
            ReportError::MissingField { field } => ReportErrorView::Field(
                FieldError::Missing(field@),
            ),
            ReportError::InvalidConversion { field, source } => ReportErrorView::Field(
                FieldError::Invalid(field@, *source),
            ),
            ReportError::FailedToConvertAccessResults {
                data_access_error,
            } => ReportErrorView::FailedToConvertAccessResults(*data_access_error),
            ReportError::FailedToConvertData { source } => ReportErrorView::FailedToConvertData(
                *source,
            ),
        }
    }
}

/// A report.
#[derive(Debug, PartialEq, Eq)]
pub struct Report {
    /// The id of the report.
    pub id: String,
    /// The optional fields that the report carries.
    pub optional_fields: Vec<OptionalFields>,
    /// The sequence number.
    pub sequence_number: Option<u32>,
    /// The time of entry.
    pub time_of_entry: Option<Timestamp>,
    /// The name of the data set.
    pub dataset: Option<String>,
    /// Whether the buffer overflowed.
    pub buffer_overflow: Option<bool>,
    /// The entry id.
    pub entry_id: Option<Vec<u8>>,
    /// The configuration revision.
    pub configuration_revision: Option<u32>,
    /// The sub sequence number.
    pub sub_sequence_number: Option<u32>,
    /// Whether more segments follow.
    pub more_segments_follows: Option<bool>,
    /// Which members of the data set the report includes.
    pub inclusion: Bitstring,
    /// The references of the included members.
    pub data_reference: Option<Vec<String>>,
    /// The values of the included members.
    pub values: Vec<Iec61850Data>,
    /// The reasons for which each included member is reported.
    pub reason_for_transmission: Option<Vec<Vec<TriggerOptions>>>,
}

/// One if the condition holds, else zero.
pub open spec fn spec_one_if(condition: bool) -> int {
    if condition {
        1
    } else {
        0
    }
}

/// The number of bits that are set in a byte.
pub open spec fn spec_ones(byte: u8) -> int {
    byte as int % 2 + byte as int / 2 % 2 + byte as int / 4 % 2 + byte as int / 8 % 2 + byte as int
        / 16 % 2 + byte as int / 32 % 2 + byte as int / 64 % 2 + byte as int / 128 % 2
}

/// The number of bits that are set in a byte string.
pub open spec fn spec_count_ones(bytes: Seq<u8>) -> int
    decreases bytes.len(),
{
    if bytes.len() == 0 {
        0
    } else {
        spec_count_ones(bytes.drop_last()) + spec_ones(bytes.last())
    }
}

/// The number of bits that are set in a byte.
pub fn ones(byte: u8) -> (res: u8)
    ensures
        res == spec_ones(byte),
        res <= 8,
{
    byte % 2 + byte / 2 % 2 + byte / 4 % 2 + byte / 8 % 2 + byte / 16 % 2 + byte / 32 % 2 + byte
        / 64 % 2 + byte / 128 % 2
}

/// The number of bits that are set in a byte string.
pub fn count_ones(bytes: &Vec<u8>) -> (res: u128)
    ensures
        res == spec_count_ones(bytes@),
        res <= 8 * bytes@.len(),
{
    let mut count: u128 = 0;
    let mut i: usize = 0;
    while i < bytes.len()
        invariant
            i <= bytes@.len(),
            count == spec_count_ones(bytes@.take(i as int)),
            count <= 8 * i,
        decreases bytes@.len() - i,
    {
        assert(bytes@.take(i + 1).drop_last() == bytes@.take(i as int));
        count = count + ones(bytes[i]) as u128;
        i = i + 1;
    }
    assert(bytes@.take(bytes@.len() as int) == bytes@);
    count
}

/// Whether a list of optional fields names a field.
pub fn has_field(fields: &Vec<OptionalFields>, field: OptionalFields) -> (res: bool)
    ensures
        res == fields@.contains(field),
{
    let mut i: usize = 0;
    while i < fields.len()
        invariant
            i <= fields@.len(),
            forall|j: int| 0 <= j < i ==> fields@[j] != field,
        decreases fields@.len() - i,
    {
        if fields[i] == field {
            return true;
        }
        i = i + 1;
    }
    false
}

/// Where the fields of a report stand in its values, for given optional
/// fields and a given number of included members.
pub struct Layout {
    /// The optional fields of the report.
    pub fields: Seq<OptionalFields>,
    /// The number of included members.
    pub count: int,
}

impl Layout {
    /// Whether the report carries the field.
    pub open spec fn has(self, field: OptionalFields) -> bool {
        self.fields.contains(field)
    }

    /// The place of the sequence number, if the report carries one.
    pub open spec fn sequence_number(self) -> int {
        2
    }

    /// The place of the time of entry.
    pub open spec fn time_of_entry(self) -> int {
        self.sequence_number() + spec_one_if(self.has(OptionalFields::SequenceNumber))
    }

    /// The place of the name of the data set.
    pub open spec fn dataset(self) -> int {
        self.time_of_entry() + spec_one_if(self.has(OptionalFields::ReportTimestamp))
    }

    /// The place of the buffer overflow flag.
    pub open spec fn buffer_overflow(self) -> int {
        self.dataset() + spec_one_if(self.has(OptionalFields::DataSetName))
    }

    /// The place of the entry id.
    pub open spec fn entry_id(self) -> int {
        self.buffer_overflow() + spec_one_if(self.has(OptionalFields::BufferOverflow))
    }

    /// The place of the configuration revision.
    pub open spec fn configuration_revision(self) -> int {
        self.entry_id() + spec_one_if(self.has(OptionalFields::EntryID))
    }

    /// The place of the sub sequence number.
    pub open spec fn sub_sequence_number(self) -> int {
        self.configuration_revision() + spec_one_if(
            self.has(OptionalFields::ConfigurationRevision),
        )
    }

    /// The place of the flag that more segments follow.
    pub open spec fn more_segments_follows(self) -> int {
        self.sub_sequence_number() + spec_one_if(self.has(OptionalFields::Segmentation))
    }

    /// The place of the inclusion bit string.
    pub open spec fn inclusion(self) -> int {
        self.more_segments_follows() + spec_one_if(self.has(OptionalFields::Segmentation))
    }

    /// The place of the first data reference.
    pub open spec fn data_reference(self) -> int {
        self.inclusion() + 1
    }

    /// The place of the first value.
    pub open spec fn values(self) -> int {
        self.data_reference() + if self.has(OptionalFields::DataReference) {
            self.count
        } else {
            0
        }
    }

    /// The place of the first reason for transmission.
    pub open spec fn reason_for_transmission(self) -> int {
        self.values() + self.count
    }
}

/// What is wrong with the value at a place that is to be of the given kind.
pub open spec fn spec_check_at(
    values: Seq<Iec61850Data>,
    place: int,
    field: Seq<char>,
    kind: Kind,
) -> Option<FieldError> {
    if values.len() <= place {
        Some(FieldError::Missing(field))
    } else {
        match spec_failure(kind, values[place]) {
            Some(e) => Some(FieldError::Invalid(field, e)),
            None => None,
        }
    }
}

/// What is wrong with the value at a place if the report carries it.
pub open spec fn spec_check_if(
    present: bool,
    values: Seq<Iec61850Data>,
    place: int,
    field: Seq<char>,
    kind: Kind,
) -> Option<FieldError> {
    if present {
        spec_check_at(values, place, field, kind)
    } else {
        None
    }
}

/// What is wrong with the first of `count` values from a place on that is
/// missing or of another kind.
pub open spec fn spec_check_run(
    values: Seq<Iec61850Data>,
    place: int,
    count: int,
    field: Seq<char>,
    kind: Kind,
) -> Option<FieldError>
    decreases count,
{
    if count <= 0 {
        None
    } else {
        spec_or(
            spec_check_at(values, place, field, kind),
            spec_check_run(values, place + 1, count - 1, field, kind),
        )
    }
}

/// The values of a report that are still to be read, in order.
pub struct Cursor {
    /// The values that are left, the next one last.
    pub rest: Vec<Iec61850Data>,
}

impl Cursor {
    /// The values that are left, the next one first.
    pub open spec fn remaining(self) -> Seq<Iec61850Data> {
        self.rest@.reverse()
    }

    /// Starts to read at the first value.
    pub fn new(values: Vec<Iec61850Data>) -> (res: Self)
        ensures
            res.remaining() == values@,
    {
        let ghost all = values@;
        let mut values = values;
        let mut rest: Vec<Iec61850Data> = Vec::new();
        while values.len() > 0
            invariant
                values@.len() <= all.len(),
                values@ == all.take(values@.len() as int),
                rest@.len() == all.len() - values@.len(),
                forall|j: int| 0 <= j < rest@.len() ==> #[trigger] rest@[j] == all[all.len() - 1 - j],
            decreases values@.len(),
        {
            let ghost before = values@;
            match values.pop() {
                Some(value) => {
                    assert(value == all[before.len() - 1]);
                    rest.push(value);
                },
                None => {},
            }
        }
        assert(rest@.reverse() =~= all);
        Self { rest }
    }

    /// Takes the next value, for the named field.
    pub fn next(&mut self, field: &str) -> (res: Result<Iec61850Data, ReportError>)
        ensures
            match res {
                Ok(value) => {
                    &&& old(self).remaining().len() > 0
                    &&& value == old(self).remaining()[0]
                    &&& final(self).remaining() == old(self).remaining().drop_first()
                },
                Err(e) => {
                    &&& old(self).remaining().len() == 0
                    &&& final(self).remaining() == old(self).remaining()
                    &&& e@ == ReportErrorView::Field(FieldError::Missing(field@))
                },
            },
    {
        match self.rest.pop() {
            Some(value) => {
                assert(self.rest@.reverse() =~= old(self).rest@.reverse().drop_first());
                Ok(value)
            },
            None => Err(ReportError::MissingField { field: field.to_owned() }),
        }
    }
}

/// The error for a value that is of another kind than the named field.
pub fn invalid(field: &str, source: Iec61850DataError) -> (res: ReportError)
    ensures
        res@ == ReportErrorView::Field(FieldError::Invalid(field@, source)),
{
    ReportError::InvalidConversion { field: field.to_owned(), source }
}

/// A run of values checked from a place on is the run checked from the
/// start of the values that follow the place.
pub proof fn lemma_run_shift(
    values: Seq<Iec61850Data>,
    place: int,
    count: int,
    field: Seq<char>,
    kind: Kind,
    offset: int,
)
    requires
        0 <= place <= values.len(),
        0 <= offset,
    ensures
        spec_check_run(values.skip(place), offset, count, field, kind) == spec_check_run(
            values,
            place + offset,
            count,
            field,
            kind,
        ),
    decreases count,
{
    if count > 0 {
        lemma_run_shift(values, place, count - 1, field, kind, offset + 1);
        if offset < values.len() - place {
            assert(values.skip(place)[offset] == values[place + offset]);
        }
    }
}

/// Takes `count` strings, for the named field.
#[verifier::loop_isolation(false)]
fn take_strings(cursor: &mut Cursor, count: u128, field: &str) -> (res: Result<
    Vec<String>,
    ReportError,
>)
    ensures
        match res {
            Ok(items) => {
                &&& spec_check_run(
                    old(cursor).remaining(),
                    0,
                    count as int,
                    field@,
                    Kind::Text,
                ) is None
                &&& items@.len() == count
                &&& count <= old(cursor).remaining().len()
                &&& forall|j: int|
                    0 <= j < count ==> (#[trigger] old(cursor).remaining()[j]).spec_string() == Ok::<
                        String,
                        Iec61850DataError,
                    >(items@[j])
                &&& final(cursor).remaining() == old(cursor).remaining().skip(count as int)
            },
            Err(e) => spec_check_run(
                old(cursor).remaining(),
                0,
                count as int,
                field@,
                Kind::Text,
            ) matches Some(f) && e@ == ReportErrorView::Field(f),
        },
{
    let ghost all = cursor.remaining();
    let mut items: Vec<String> = Vec::new();
    let mut i: u128 = 0;
    assert(all.skip(0) == all);
    while i < count
        invariant
            i <= count,
            i <= all.len(),
            items@.len() == i,
            cursor.remaining() == all.skip(i as int),
            forall|j: int|
                0 <= j < i ==> (#[trigger] all[j]).spec_string() == Ok::<String, Iec61850DataError>(
                    items@[j],
                ),
            spec_check_run(all, 0, count as int, field@, Kind::Text) == spec_check_run(
                all,
                i as int,
                count - i,
                field@,
                Kind::Text,
            ),
        decreases count - i,
    {
        let value: Iec61850Data = match cursor.next(field) {
            Ok(v) => v,
            Err(e) => {
                return Err(e);
            },
        };
        assert(value == all[i as int]);
        assert(all.skip(i as int).drop_first() == all.skip(i + 1));
        match String::try_from(value) {
            Ok(item) => {
                items.push(item);
            },
            Err(e) => {
                return Err(invalid(field, e));
            },
        }
        i = i + 1;
    }
    Ok(items)
}

/// Takes `count` values as they are.
#[verifier::loop_isolation(false)]
fn take_values(cursor: &mut Cursor, count: u128) -> (res: Result<Vec<Iec61850Data>, ReportError>)
    ensures
        match res {
            Ok(items) => {
                &&& spec_check_run(
                    old(cursor).remaining(),
                    0,
                    count as int,
                    "value"@,
                    Kind::Any,
                ) is None
                &&& count <= old(cursor).remaining().len()
                &&& items@ == old(cursor).remaining().take(count as int)
                &&& final(cursor).remaining() == old(cursor).remaining().skip(count as int)
            },
            Err(e) => spec_check_run(
                old(cursor).remaining(),
                0,
                count as int,
                "value"@,
                Kind::Any,
            ) matches Some(f) && e@ == ReportErrorView::Field(f),
        },
{
    let ghost all = cursor.remaining();
    let mut items: Vec<Iec61850Data> = Vec::new();
    let mut i: u128 = 0;
    assert(all.skip(0) == all);
    while i < count
        invariant
            i <= count,
            i <= all.len(),
            items@ == all.take(i as int),
            cursor.remaining() == all.skip(i as int),
            spec_check_run(all, 0, count as int, "value"@, Kind::Any) == spec_check_run(
                all,
                i as int,
                count - i,
                "value"@,
                Kind::Any,
            ),
        decreases count - i,
    {
        let value: Iec61850Data = match cursor.next("value") {
            Ok(v) => v,
            Err(e) => {
                return Err(e);
            },
        };
        assert(value == all[i as int]);
        assert(all.skip(i as int).drop_first() == all.skip(i + 1));
        assert(all.take(i + 1) == all.take(i as int).push(value));
        items.push(value);
        i = i + 1;
    }
    Ok(items)
}

/// Takes `count` lists of trigger options, for the named field.
#[verifier::loop_isolation(false)]
fn take_reasons(cursor: &mut Cursor, count: u128, field: &str) -> (res: Result<
    Vec<Vec<TriggerOptions>>,
    ReportError,
>)
    ensures
        match res {
            Ok(items) => {
                &&& spec_check_run(
                    old(cursor).remaining(),
                    0,
                    count as int,
                    field@,
                    Kind::Triggers,
                ) is None
                &&& items@.len() == count
                &&& count <= old(cursor).remaining().len()
                &&& forall|j: int|
                    0 <= j < count ==> TriggerOptions::spec_from_data(
                        #[trigger] old(cursor).remaining()[j],
                    ) == Ok::<Seq<TriggerOptions>, Iec61850DataError>(items@[j]@)
                &&& final(cursor).remaining() == old(cursor).remaining().skip(count as int)
            },
            Err(e) => spec_check_run(
                old(cursor).remaining(),
                0,
                count as int,
                field@,
                Kind::Triggers,
            ) matches Some(f) && e@ == ReportErrorView::Field(f),
        },
{
    let ghost all = cursor.remaining();
    let mut items: Vec<Vec<TriggerOptions>> = Vec::new();
    let mut i: u128 = 0;
    assert(all.skip(0) == all);
    while i < count
        invariant
            i <= count,
            i <= all.len(),
            items@.len() == i,
            cursor.remaining() == all.skip(i as int),
            forall|j: int|
                0 <= j < i ==> TriggerOptions::spec_from_data(#[trigger] all[j]) == Ok::<
                    Seq<TriggerOptions>,
                    Iec61850DataError,
                >(items@[j]@),
            spec_check_run(all, 0, count as int, field@, Kind::Triggers) == spec_check_run(
                all,
                i as int,
                count - i,
                field@,
                Kind::Triggers,
            ),
        decreases count - i,
    {
        let value: Iec61850Data = match cursor.next(field) {
            Ok(v) => v,
            Err(e) => {
                return Err(e);
            },
        };
        assert(value == all[i as int]);
        assert(all.skip(i as int).drop_first() == all.skip(i + 1));
        match TriggerOptions::from_data(value) {
            Ok(item) => {
                items.push(item);
            },
            Err(e) => {
                return Err(invalid(field, e));
            },
        }
        i = i + 1;
    }
    Ok(items)
}

/// The value at a place that the report carries as an unsigned integer.
pub open spec fn spec_u32_at(present: bool, values: Seq<Iec61850Data>, place: int) -> Option<u32> {
    if present {
        Some(values[place].spec_u32()->Ok_0)
    } else {
        None
    }
}

/// The value at a place that the report carries as a boolean.
pub open spec fn spec_bool_at(present: bool, values: Seq<Iec61850Data>, place: int) -> Option<
    bool,
> {
    if present {
        Some(values[place].spec_bool()->Ok_0)
    } else {
        None
    }
}

/// Whether the first four fields after the optional fields are what the
/// values say at the places of the layout.
pub open spec fn spec_head_first_holds(
    values: Seq<Iec61850Data>,
    sequence_number: Option<u32>,
    time_of_entry: Option<Timestamp>,
    dataset: Option<String>,
    buffer_overflow: Option<bool>,
) -> bool {
    let l = Report::spec_head(values);
    &&& sequence_number == spec_u32_at(
        l.has(OptionalFields::SequenceNumber),
        values,
        l.sequence_number(),
    )
    &&& spec_time_at(l.has(OptionalFields::ReportTimestamp), values, l.time_of_entry(), time_of_entry)
    &&& spec_text_at(l.has(OptionalFields::DataSetName), values, l.dataset(), dataset)
    &&& buffer_overflow == spec_bool_at(
        l.has(OptionalFields::BufferOverflow),
        values,
        l.buffer_overflow(),
    )
}

/// Whether the next four fields and the inclusion bit string are what the
/// values say at the places of the layout.
pub open spec fn spec_head_second_holds(
    values: Seq<Iec61850Data>,
    entry_id: Option<Vec<u8>>,
    configuration_revision: Option<u32>,
    sub_sequence_number: Option<u32>,
    more_segments_follows: Option<bool>,
    inclusion: Bitstring,
) -> bool {
    let l = Report::spec_head(values);
    &&& spec_octets_at(l.has(OptionalFields::EntryID), values, l.entry_id(), entry_id)
    &&& configuration_revision == spec_u32_at(
        l.has(OptionalFields::ConfigurationRevision),
        values,
        l.configuration_revision(),
    )
    &&& sub_sequence_number == spec_u32_at(
        l.has(OptionalFields::Segmentation),
        values,
        l.sub_sequence_number(),
    )
    &&& more_segments_follows == spec_bool_at(
        l.has(OptionalFields::Segmentation),
        values,
        l.more_segments_follows(),
    )
    &&& values[l.inclusion()].spec_bitstring() == Ok::<Bitstring, Iec61850DataError>(inclusion)
}

/// Whether the fields between the optional fields and the members are what
/// the values say at the places of the layout.
pub open spec fn spec_head_holds(
    values: Seq<Iec61850Data>,
    sequence_number: Option<u32>,
    time_of_entry: Option<Timestamp>,
    dataset: Option<String>,
    buffer_overflow: Option<bool>,
    entry_id: Option<Vec<u8>>,
    configuration_revision: Option<u32>,
    sub_sequence_number: Option<u32>,
    more_segments_follows: Option<bool>,
    inclusion: Bitstring,
) -> bool {
    &&& spec_head_first_holds(values, sequence_number, time_of_entry, dataset, buffer_overflow)
    &&& spec_head_second_holds(
        values,
        entry_id,
        configuration_revision,
        sub_sequence_number,
        more_segments_follows,
        inclusion,
    )
}

/// Whether the members are what the values say at the places of the layout.
pub open spec fn spec_members_hold(
    values: Seq<Iec61850Data>,
    data_reference: Option<Vec<String>>,
    members: Vec<Iec61850Data>,
    reason_for_transmission: Option<Vec<Vec<TriggerOptions>>>,
) -> bool {
    let l = Report::spec_layout(values);
    &&& (if l.has(OptionalFields::DataReference) {
        &&& data_reference matches Some(references)
        &&& references@.len() == l.count
        &&& forall|j: int|
            0 <= j < l.count ==> (#[trigger] values[l.data_reference() + j]).spec_string() == Ok::<
                String,
                Iec61850DataError,
            >(references@[j])
    } else {
        data_reference is None
    })
    &&& members@ == values.subrange(l.values(), l.values() + l.count)
    &&& (if l.has(OptionalFields::ReasonForTransmission) {
        &&& reason_for_transmission matches Some(reasons)
        &&& reasons@.len() == l.count
        &&& forall|j: int|
            0 <= j < l.count ==> TriggerOptions::spec_from_data(
                #[trigger] values[l.reason_for_transmission() + j],
            ) == Ok::<Seq<TriggerOptions>, Iec61850DataError>(reasons@[j]@)
    } else {
        reason_for_transmission is None
    })
}

/// Whether an optional time is what the value at a place says.
pub open spec fn spec_time_at(
    present: bool,
    values: Seq<Iec61850Data>,
    place: int,
    time: Option<Timestamp>,
) -> bool {
    if present {
        time matches Some(t) && values[place].spec_time() == Ok::<Timestamp, Iec61850DataError>(t)
    } else {
        time is None
    }
}

/// Whether an optional string is what the value at a place says.
pub open spec fn spec_text_at(
    present: bool,
    values: Seq<Iec61850Data>,
    place: int,
    text: Option<String>,
) -> bool {
    if present {
        text matches Some(t) && values[place].spec_string() == Ok::<String, Iec61850DataError>(t)
    } else {
        text is None
    }
}

/// Whether an optional octet string is what the value at a place says.
pub open spec fn spec_octets_at(
    present: bool,
    values: Seq<Iec61850Data>,
    place: int,
    octets: Option<Vec<u8>>,
) -> bool {
    if present {
        octets matches Some(o) && values[place].spec_octets() == Ok::<Vec<u8>, Iec61850DataError>(
            o,
        )
    } else {
        octets is None
    }
}

/// The first four fields of a report after the optional fields.
pub struct HeadFirst {
    /// The sequence number.
    pub sequence_number: Option<u32>,
    /// The time of entry.
    pub time_of_entry: Option<Timestamp>,
    /// The name of the data set.
    pub dataset: Option<String>,
    /// Whether the buffer overflowed.
    pub buffer_overflow: Option<bool>,
}

/// The next four fields of a report and the inclusion bit string.
pub struct HeadSecond {
    /// The entry id.
    pub entry_id: Option<Vec<u8>>,
    /// The configuration revision.
    pub configuration_revision: Option<u32>,
    /// The sub sequence number.
    pub sub_sequence_number: Option<u32>,
    /// Whether more segments follow.
    pub more_segments_follows: Option<bool>,
    /// Which members of the data set the report includes.
    pub inclusion: Bitstring,
}

/// The members of a report.
pub struct Members {
    /// The references of the included members.
    pub data_reference: Option<Vec<String>>,
    /// The values of the included members.
    pub values: Vec<Iec61850Data>,
    /// The reasons for which each included member is reported.
    pub reason_for_transmission: Option<Vec<Vec<TriggerOptions>>>,
}

/// The check of a place is the check of the first of the values that
/// follow the place.
pub proof fn lemma_check_shift(values: Seq<Iec61850Data>, place: int, field: Seq<char>, kind: Kind)
    requires
        0 <= place <= values.len(),
    ensures
        spec_check_at(values.skip(place), 0, field, kind) == spec_check_at(
            values,
            place,
            field,
            kind,
        ),
        place < values.len() ==> values.skip(place)[0] == values[place],
        place < values.len() ==> values.skip(place).skip(1) == values.skip(place + 1),
        values.skip(place).skip(0) == values.skip(place),
{
}

/// Takes an unsigned integer if the report carries it.
fn take_optional_u32(cursor: &mut Cursor, present: bool, field: &str) -> (res: Result<
    Option<u32>,
    ReportError,
>)
    ensures
        match res {
            Ok(v) => {
                &&& spec_check_if(present, old(cursor).remaining(), 0, field@, Kind::Unsigned) is None
                &&& v == spec_u32_at(present, old(cursor).remaining(), 0)
                &&& final(cursor).remaining() == old(cursor).remaining().skip(spec_one_if(present))
            },
            Err(e) => spec_check_if(
                present,
                old(cursor).remaining(),
                0,
                field@,
                Kind::Unsigned,
            ) matches Some(f) && e@ == ReportErrorView::Field(f),
        },
{
    if !present {
        assert(cursor.remaining().skip(0) == cursor.remaining());
        return Ok(None);
    }
    let value: Iec61850Data = cursor.next(field)?;
    match u32::try_from(value) {
        Ok(v) => Ok(Some(v)),
        Err(e) => Err(invalid(field, e)),
    }
}

/// Takes a boolean if the report carries it.
fn take_optional_bool(cursor: &mut Cursor, present: bool, field: &str) -> (res: Result<
    Option<bool>,
    ReportError,
>)
    ensures
        match res {
            Ok(v) => {
                &&& spec_check_if(present, old(cursor).remaining(), 0, field@, Kind::Bool) is None
                &&& v == spec_bool_at(present, old(cursor).remaining(), 0)
                &&& final(cursor).remaining() == old(cursor).remaining().skip(spec_one_if(present))
            },
            Err(e) => spec_check_if(
                present,
                old(cursor).remaining(),
                0,
                field@,
                Kind::Bool,
            ) matches Some(f) && e@ == ReportErrorView::Field(f),
        },
{
    if !present {
        assert(cursor.remaining().skip(0) == cursor.remaining());
        return Ok(None);
    }
    let value: Iec61850Data = cursor.next(field)?;
    match bool::try_from(value) {
        Ok(v) => Ok(Some(v)),
        Err(e) => Err(invalid(field, e)),
    }
}

/// Takes a time if the report carries it.
fn take_optional_time(cursor: &mut Cursor, present: bool, field: &str) -> (res: Result<
    Option<Timestamp>,
    ReportError,
>)
    ensures
        match res {
            Ok(v) => {
                &&& spec_check_if(present, old(cursor).remaining(), 0, field@, Kind::Time) is None
                &&& spec_time_at(present, old(cursor).remaining(), 0, v)
                &&& final(cursor).remaining() == old(cursor).remaining().skip(spec_one_if(present))
            },
            Err(e) => spec_check_if(
                present,
                old(cursor).remaining(),
                0,
                field@,
                Kind::Time,
            ) matches Some(f) && e@ == ReportErrorView::Field(f),
        },
{
    if !present {
        assert(cursor.remaining().skip(0) == cursor.remaining());
        return Ok(None);
    }
    let value: Iec61850Data = cursor.next(field)?;
    match Timestamp::try_from(value) {
        Ok(v) => Ok(Some(v)),
        Err(e) => Err(invalid(field, e)),
    }
}

/// Takes a string if the report carries it.
fn take_optional_text(cursor: &mut Cursor, present: bool, field: &str) -> (res: Result<
    Option<String>,
    ReportError,
>)
    ensures
        match res {
            Ok(v) => {
                &&& spec_check_if(present, old(cursor).remaining(), 0, field@, Kind::Text) is None
                &&& spec_text_at(present, old(cursor).remaining(), 0, v)
                &&& final(cursor).remaining() == old(cursor).remaining().skip(spec_one_if(present))
            },
            Err(e) => spec_check_if(
                present,
                old(cursor).remaining(),
                0,
                field@,
                Kind::Text,
            ) matches Some(f) && e@ == ReportErrorView::Field(f),
        },
{
    if !present {
        assert(cursor.remaining().skip(0) == cursor.remaining());
        return Ok(None);
    }
    let value: Iec61850Data = cursor.next(field)?;
    match String::try_from(value) {
        Ok(v) => Ok(Some(v)),
        Err(e) => Err(invalid(field, e)),
    }
}

/// Takes an octet string if the report carries it.
fn take_optional_octets(cursor: &mut Cursor, present: bool, field: &str) -> (res: Result<
    Option<Vec<u8>>,
    ReportError,
>)
    ensures
        match res {
            Ok(v) => {
                &&& spec_check_if(present, old(cursor).remaining(), 0, field@, Kind::Octets) is None
                &&& spec_octets_at(present, old(cursor).remaining(), 0, v)
                &&& final(cursor).remaining() == old(cursor).remaining().skip(spec_one_if(present))
            },
            Err(e) => spec_check_if(
                present,
                old(cursor).remaining(),
                0,
                field@,
                Kind::Octets,
            ) matches Some(f) && e@ == ReportErrorView::Field(f),
        },
{
    if !present {
        assert(cursor.remaining().skip(0) == cursor.remaining());
        return Ok(None);
    }
    let value: Iec61850Data = cursor.next(field)?;
    match Vec::<u8>::try_from(value) {
        Ok(v) => Ok(Some(v)),
        Err(e) => Err(invalid(field, e)),
    }
}

/// Reads the id and the optional fields of a report.
fn read_id(cursor: &mut Cursor) -> (res: Result<(String, Vec<OptionalFields>), ReportError>)
    requires
        old(cursor).remaining().len() >= 3,
    ensures
        match res {
            Ok(pair) => {
                &&& Report::spec_error_id(old(cursor).remaining()) is None
                &&& old(cursor).remaining()[0].spec_string() == Ok::<String, Iec61850DataError>(
                    pair.0,
                )
                &&& pair.1@ == Report::spec_fields(old(cursor).remaining())
                &&& final(cursor).remaining() == old(cursor).remaining().skip(2)
            },
            Err(e) => Report::spec_error_id(old(cursor).remaining()) matches Some(f) && e@
                == ReportErrorView::Field(f),
        },
{
    let ghost all = cursor.remaining();
    let value: Iec61850Data = cursor.next("id")?;
    let id: String = match String::try_from(value) {
        Ok(v) => v,
        Err(e) => {
            return Err(invalid("id", e));
        },
    };
    assert(all.drop_first()[0] == all[1]);
    let value: Iec61850Data = cursor.next("optional_fields")?;
    let optional_fields: Vec<OptionalFields> = match OptionalFields::from_data(value) {
        Ok(v) => v,
        Err(e) => {
            return Err(invalid("optional_fields", e));
        },
    };
    assert(all.drop_first().drop_first() == all.skip(2));
    Ok((id, optional_fields))
}

impl Report {
    /// The optional fields that the second value of a report names.
    pub open spec fn spec_fields(values: Seq<Iec61850Data>) -> Seq<OptionalFields> {
        OptionalFields::spec_from_data(values[1])->Ok_0
    }

    /// The layout of a report without its members.
    pub open spec fn spec_head(values: Seq<Iec61850Data>) -> Layout {
        Layout { fields: Self::spec_fields(values), count: 0 }
    }

    /// The number of members that the inclusion bit string of a report
    /// includes.
    pub open spec fn spec_count(values: Seq<Iec61850Data>) -> int {
        spec_count_ones(
            values[Self::spec_head(values).inclusion()].spec_bitstring()->Ok_0.bytes@,
        )
    }

    /// The layout of a report.
    pub open spec fn spec_layout(values: Seq<Iec61850Data>) -> Layout {
        Layout { fields: Self::spec_fields(values), count: Self::spec_count(values) }
    }

    /// What is wrong with the id or the optional fields.
    pub open spec fn spec_error_id(values: Seq<Iec61850Data>) -> Option<FieldError> {
        spec_or(
            spec_check_at(values, 0, "id"@, Kind::Text),
            spec_check_at(values, 1, "optional_fields"@, Kind::Fields),
        )
    }

    /// What is wrong with the first four fields after the optional fields,
    /// as far as the report carries them.
    pub open spec fn spec_error_head_first(values: Seq<Iec61850Data>) -> Option<FieldError> {
        let l = Self::spec_head(values);
        spec_or(
            spec_check_if(
                l.has(OptionalFields::SequenceNumber),
                values,
                l.sequence_number(),
                "sequence_number"@,
                Kind::Unsigned,
            ),
            spec_or(
                spec_check_if(
                    l.has(OptionalFields::ReportTimestamp),
                    values,
                    l.time_of_entry(),
                    "time_of_entry"@,
                    Kind::Time,
                ),
                spec_or(
                    spec_check_if(
                        l.has(OptionalFields::DataSetName),
                        values,
                        l.dataset(),
                        "dataset"@,
                        Kind::Text,
                    ),
                    spec_check_if(
                        l.has(OptionalFields::BufferOverflow),
                        values,
                        l.buffer_overflow(),
                        "buffer_overflow"@,
                        Kind::Bool,
                    ),
                ),
            ),
        )
    }

    /// What is wrong with the next four fields, as far as the report
    /// carries them, and with the inclusion bit string.
    pub open spec fn spec_error_head_second(values: Seq<Iec61850Data>) -> Option<FieldError> {
        let l = Self::spec_head(values);
        spec_or(
            spec_check_if(
                l.has(OptionalFields::EntryID),
                values,
                l.entry_id(),
                "entry_id"@,
                Kind::Octets,
            ),
            spec_or(
                spec_check_if(
                    l.has(OptionalFields::ConfigurationRevision),
                    values,
                    l.configuration_revision(),
                    "configuration_revision"@,
                    Kind::Unsigned,
                ),
                spec_or(
                    spec_check_if(
                        l.has(OptionalFields::Segmentation),
                        values,
                        l.sub_sequence_number(),
                        "sub_sequence_number"@,
                        Kind::Unsigned,
                    ),
                    spec_or(
                        spec_check_if(
                            l.has(OptionalFields::Segmentation),
                            values,
                            l.more_segments_follows(),
                            "more_segments_follows"@,
                            Kind::Bool,
                        ),
                        spec_check_at(values, l.inclusion(), "Inclusion-bitstring "@, Kind::Bits),
                    ),
                ),
            ),
        )
    }

    /// What is wrong with the fields between the optional fields and the
    /// members: each of them that the report carries, and the inclusion bit
    /// string.
    pub open spec fn spec_error_head(values: Seq<Iec61850Data>) -> Option<FieldError> {
        spec_or(Self::spec_error_head_first(values), Self::spec_error_head_second(values))
    }

    /// What is wrong with the members: the data references if the report
    /// carries them, the values, and the reasons for transmission if the
    /// report carries them.
    pub open spec fn spec_error_members(values: Seq<Iec61850Data>) -> Option<FieldError> {
        let l = Self::spec_layout(values);
        spec_or(
            if l.has(OptionalFields::DataReference) {
                spec_check_run(values, l.data_reference(), l.count, "data_reference"@, Kind::Text)
            } else {
                None
            },
            spec_or(
                spec_check_run(values, l.values(), l.count, "value"@, Kind::Any),
                if l.has(OptionalFields::ReasonForTransmission) {
                    spec_check_run(
                        values,
                        l.reason_for_transmission(),
                        l.count,
                        "reason_for_transmission"@,
                        Kind::Triggers,
                    )
                } else {
                    None
                },
            ),
        )
    }

    /// What is wrong with values as a report: fewer than three values, or
    /// the first field in the order of the layout that is missing or of
    /// another kind.
    pub open spec fn spec_error(values: Seq<Iec61850Data>) -> Option<ReportErrorView> {
        if values.len() < 3 {
            Some(ReportErrorView::InvalidReport)
        } else {
            match spec_or(
                Self::spec_error_id(values),
                spec_or(Self::spec_error_head(values), Self::spec_error_members(values)),
            ) {
                Some(f) => Some(ReportErrorView::Field(f)),
                None => None,
            }
        }
    }

    /// Whether the report holds what the values say at the places of the
    /// layout.
    pub open spec fn spec_holds(self, values: Seq<Iec61850Data>) -> bool {
        &&& values[0].spec_string() == Ok::<String, Iec61850DataError>(self.id)
        &&& self.optional_fields@ == Self::spec_fields(values)
        &&& spec_head_holds(
            values,
            self.sequence_number,
            self.time_of_entry,
            self.dataset,
            self.buffer_overflow,
            self.entry_id,
            self.configuration_revision,
            self.sub_sequence_number,
            self.more_segments_follows,
            self.inclusion,
        )
        &&& spec_members_hold(
            values,
            self.data_reference,
            self.values,
            self.reason_for_transmission,
        )
    }

    /// Reads a report from its values. Values after the last member are not
    /// looked at.
    #[verifier::rlimit(50)]
    pub fn from_values(values: Vec<Iec61850Data>) -> (res: Result<Self, ReportError>)
        ensures
            match res {
                Ok(report) => Self::spec_error(values@) is None && report.spec_holds(values@),
                Err(e) => Self::spec_error(values@) == Some(e@),
            },
    {
        let ghost all = values@;
        if values.len() < 3 {
            return Err(ReportError::InvalidReport);
        }
        let mut cursor: Cursor = Cursor::new(values);
        let (id, optional_fields) = read_id(&mut cursor)?;
        let first: HeadFirst = read_head_first(&mut cursor, &optional_fields, Ghost(all))?;
        let head: HeadSecond = read_head_second(&mut cursor, &optional_fields, Ghost(all))?;
        let meas_count: u128 = count_ones(&head.inclusion.bytes);
        let members: Members = read_members(&mut cursor, &optional_fields, meas_count, Ghost(all))?;
        Ok(
            Self {
                id,
                optional_fields,
                sequence_number: first.sequence_number,
                time_of_entry: first.time_of_entry,
                dataset: first.dataset,
                buffer_overflow: first.buffer_overflow,
                entry_id: head.entry_id,
                configuration_revision: head.configuration_revision,
                sub_sequence_number: head.sub_sequence_number,
                more_segments_follows: head.more_segments_follows,
                inclusion: head.inclusion,
                data_reference: members.data_reference,
                values: members.values,
                reason_for_transmission: members.reason_for_transmission,
            },
        )
    }

    /// Reads a report from the access results of an information report. An
    /// access that the server refused is an error before anything else.
    pub fn from_access_results(results: Vec<AccessResult<Iec61850Data>>) -> (res: Result<
        Self,
        ReportError,
    >)
        ensures
            match spec_first_failure(results@) {
                Some(code) => res matches Err(e) && e@
                    == ReportErrorView::FailedToConvertAccessResults(code),
                None => match res {
                    Ok(report) => Self::spec_error(spec_successes(results@)) is None
                        && report.spec_holds(spec_successes(results@)),
                    Err(e) => Self::spec_error(spec_successes(results@)) == Some(e@),
                },
            },
    {
        match crate::mms::client::MmsClient::read(Some(results)) {
            Ok(values) => Self::from_values(values),
            Err(crate::mms::client::MmsClientError::DataAccessError { error }) => Err(
                ReportError::FailedToConvertAccessResults { data_access_error: error },
            ),
            Err(_) => Err(ReportError::InvalidReport),
        }
    }
}

/// Reads the first four fields of a report after the optional fields.
#[verifier::rlimit(50)]
fn read_head_first(
    cursor: &mut Cursor,
    optional_fields: &Vec<OptionalFields>,
    Ghost(all): Ghost<Seq<Iec61850Data>>,
) -> (res: Result<HeadFirst, ReportError>)
    requires
        all.len() >= 3,
        optional_fields@ == Report::spec_fields(all),
        old(cursor).remaining() == all.skip(2),
    ensures
        match res {
            Ok(head) => {
                &&& Report::spec_error_head_first(all) is None
                &&& spec_head_first_holds(
                    all,
                    head.sequence_number,
                    head.time_of_entry,
                    head.dataset,
                    head.buffer_overflow,
                )
                &&& final(cursor).remaining() == all.skip(Report::spec_head(all).entry_id())
                &&& Report::spec_head(all).entry_id() <= all.len()
            },
            Err(e) => Report::spec_error_head_first(all) matches Some(f) && e@
                == ReportErrorView::Field(f),
        },
{
    let ghost l = Report::spec_head(all);
    let has_sequence_number: bool = has_field(optional_fields, OptionalFields::SequenceNumber);
    let has_timestamp: bool = has_field(optional_fields, OptionalFields::ReportTimestamp);
    let has_dataset: bool = has_field(optional_fields, OptionalFields::DataSetName);
    let has_overflow: bool = has_field(optional_fields, OptionalFields::BufferOverflow);

    proof {
        lemma_check_shift(all, l.sequence_number(), "sequence_number"@, Kind::Unsigned);
    }
    let sequence_number: Option<u32> = take_optional_u32(
        cursor,
        has_sequence_number,
        "sequence_number",
    )?;
    assert(cursor.remaining() == all.skip(l.time_of_entry()));
    assert(l.time_of_entry() <= all.len());

    proof {
        lemma_check_shift(all, l.time_of_entry(), "time_of_entry"@, Kind::Time);
    }
    let time_of_entry: Option<Timestamp> = take_optional_time(
        cursor,
        has_timestamp,
        "time_of_entry",
    )?;
    assert(cursor.remaining() == all.skip(l.dataset()));
    assert(l.dataset() <= all.len());

    proof {
        lemma_check_shift(all, l.dataset(), "dataset"@, Kind::Text);
    }
    let dataset: Option<String> = take_optional_text(cursor, has_dataset, "dataset")?;
    assert(cursor.remaining() == all.skip(l.buffer_overflow()));
    assert(l.buffer_overflow() <= all.len());

    proof {
        lemma_check_shift(all, l.buffer_overflow(), "buffer_overflow"@, Kind::Bool);
    }
    let buffer_overflow: Option<bool> = take_optional_bool(cursor, has_overflow, "buffer_overflow")?;
    assert(cursor.remaining() == all.skip(l.entry_id()));
    assert(l.entry_id() <= all.len());
    Ok(HeadFirst { sequence_number, time_of_entry, dataset, buffer_overflow })
}

/// Reads the next four fields of a report and the inclusion bit string.
#[verifier::rlimit(50)]
fn read_head_second(
    cursor: &mut Cursor,
    optional_fields: &Vec<OptionalFields>,
    Ghost(all): Ghost<Seq<Iec61850Data>>,
) -> (res: Result<HeadSecond, ReportError>)
    requires
        all.len() >= 3,
        optional_fields@ == Report::spec_fields(all),
        0 <= Report::spec_head(all).entry_id() <= all.len(),
        old(cursor).remaining() == all.skip(Report::spec_head(all).entry_id()),
    ensures
        match res {
            Ok(head) => {
                &&& Report::spec_error_head_second(all) is None
                &&& spec_head_second_holds(
                    all,
                    head.entry_id,
                    head.configuration_revision,
                    head.sub_sequence_number,
                    head.more_segments_follows,
                    head.inclusion,
                )
                &&& final(cursor).remaining() == all.skip(
                    Report::spec_head(all).data_reference(),
                )
                &&& Report::spec_head(all).data_reference() <= all.len()
            },
            Err(e) => Report::spec_error_head_second(all) matches Some(f) && e@
                == ReportErrorView::Field(f),
        },
{
    let ghost l = Report::spec_head(all);
    let has_entry_id: bool = has_field(optional_fields, OptionalFields::EntryID);
    let has_revision: bool = has_field(optional_fields, OptionalFields::ConfigurationRevision);
    let segmented: bool = has_field(optional_fields, OptionalFields::Segmentation);

    proof {
        lemma_check_shift(all, l.entry_id(), "entry_id"@, Kind::Octets);
    }
    let entry_id: Option<Vec<u8>> = take_optional_octets(cursor, has_entry_id, "entry_id")?;
    assert(cursor.remaining() == all.skip(l.configuration_revision()));
    assert(l.configuration_revision() <= all.len());

    proof {
        lemma_check_shift(
            all,
            l.configuration_revision(),
            "configuration_revision"@,
            Kind::Unsigned,
        );
    }
    let configuration_revision: Option<u32> = take_optional_u32(
        cursor,
        has_revision,
        "configuration_revision",
    )?;
    assert(cursor.remaining() == all.skip(l.sub_sequence_number()));
    assert(l.sub_sequence_number() <= all.len());

    proof {
        lemma_check_shift(all, l.sub_sequence_number(), "sub_sequence_number"@, Kind::Unsigned);
    }
    let sub_sequence_number: Option<u32> = take_optional_u32(
        cursor,
        segmented,
        "sub_sequence_number",
    )?;
    assert(cursor.remaining() == all.skip(l.more_segments_follows()));
    assert(l.more_segments_follows() <= all.len());

    proof {
        lemma_check_shift(all, l.more_segments_follows(), "more_segments_follows"@, Kind::Bool);
    }
    let more_segments_follows: Option<bool> = take_optional_bool(
        cursor,
        segmented,
        "more_segments_follows",
    )?;
    assert(cursor.remaining() == all.skip(l.inclusion()));
    assert(l.inclusion() <= all.len());

    proof {
        lemma_check_shift(all, l.inclusion(), "Inclusion-bitstring "@, Kind::Bits);
    }
    let value: Iec61850Data = cursor.next("Inclusion-bitstring ")?;
    let inclusion: Bitstring = match Bitstring::try_from(value) {
        Ok(v) => v,
        Err(e) => {
            return Err(invalid("Inclusion-bitstring ", e));
        },
    };
    assert(all.skip(l.inclusion()).drop_first() == all.skip(l.inclusion() + 1));
    Ok(
        HeadSecond {
            entry_id,
            configuration_revision,
            sub_sequence_number,
            more_segments_follows,
            inclusion,
        },
    )
}

/// Reads the members of a report.
#[verifier::rlimit(50)]
fn read_members(
    cursor: &mut Cursor,
    optional_fields: &Vec<OptionalFields>,
    meas_count: u128,
    Ghost(all): Ghost<Seq<Iec61850Data>>,
) -> (res: Result<Members, ReportError>)
    requires
        all.len() >= 3,
        optional_fields@ == Report::spec_fields(all),
        meas_count == Report::spec_count(all),
        0 <= Report::spec_layout(all).data_reference() <= all.len(),
        old(cursor).remaining() == all.skip(Report::spec_layout(all).data_reference()),
    ensures
        match res {
            Ok(members) => {
                &&& Report::spec_error_members(all) is None
                &&& spec_members_hold(
                    all,
                    members.data_reference,
                    members.values,
                    members.reason_for_transmission,
                )
            },
            Err(e) => Report::spec_error_members(all) matches Some(f) && e@
                == ReportErrorView::Field(f),
        },
{
    let ghost l = Report::spec_layout(all);
    let ghost mut place: int = l.data_reference();
    let mut data_reference: Option<Vec<String>> = None;
    if has_field(optional_fields, OptionalFields::DataReference) {
        proof {
            lemma_run_shift(all, place, meas_count as int, "data_reference"@, Kind::Text, 0);
        }
        let references: Vec<String> = take_strings(cursor, meas_count, "data_reference")?;
        proof {
            assert forall|j: int| 0 <= j < l.count implies (#[trigger] all[l.data_reference()
                + j]).spec_string() == Ok::<String, Iec61850DataError>(references@[j]) by {
                assert(all.skip(place)[j] == all[place + j]);
            }
            assert(all.skip(place).skip(meas_count as int) == all.skip(place + meas_count));
            place = place + meas_count;
        }
        data_reference = Some(references);
    }
    assert(place == l.values());
    assert(cursor.remaining() == all.skip(place));

    proof {
        lemma_run_shift(all, place, meas_count as int, "value"@, Kind::Any, 0);
    }
    let values: Vec<Iec61850Data> = take_values(cursor, meas_count)?;
    proof {
        assert(all.skip(place).take(meas_count as int) == all.subrange(place, place + meas_count));
        assert(all.skip(place).skip(meas_count as int) == all.skip(place + meas_count));
        place = place + meas_count;
    }
    assert(place == l.reason_for_transmission());
    assert(cursor.remaining() == all.skip(place));

    let mut reason_for_transmission: Option<Vec<Vec<TriggerOptions>>> = None;
    if has_field(optional_fields, OptionalFields::ReasonForTransmission) {
        proof {
            lemma_run_shift(
                all,
                place,
                meas_count as int,
                "reason_for_transmission"@,
                Kind::Triggers,
                0,
            );
        }
        let reasons: Vec<Vec<TriggerOptions>> = take_reasons(
            cursor,
            meas_count,
            "reason_for_transmission",
        )?;
        proof {
            assert forall|j: int| 0 <= j < l.count implies TriggerOptions::spec_from_data(
                #[trigger] all[l.reason_for_transmission() + j],
            ) == Ok::<Seq<TriggerOptions>, Iec61850DataError>(reasons@[j]@) by {
                assert(all.skip(place)[j] == all[place + j]);
            }
        }
        reason_for_transmission = Some(reasons);
    }
    Ok(Members { data_reference, values, reason_for_transmission })
}

/// What the access results of an information report give as values, in
/// order: each value converted, or the error of the first result that the
/// server refused or whose value cannot be converted.
pub open spec fn spec_report_values(results: Seq<AccessResult<MmsData>>) -> Result<
    Seq<Iec61850DataView>,
    ReportErrorView,
>
    decreases results.len(),
{
    if results.len() == 0 {
        Ok(Seq::empty())
    } else {
        match results[0] {
            AccessResult::Failure(code) => Err(ReportErrorView::FailedToConvertAccessResults(code)),
            AccessResult::Success(data) => match spec_from_mms(data) {
                Err(e) => Err(ReportErrorView::FailedToConvertData(e)),
                Ok(view) => match spec_report_values(results.drop_first()) {
                    Ok(rest) => Ok(seq![view] + rest),
                    Err(e) => Err(e),
                },
            },
        }
    }
}

/// Puts converted values in front of what the rest gives.
pub open spec fn spec_values_prepend(
    head: Seq<Iec61850DataView>,
    rest: Result<Seq<Iec61850DataView>, ReportErrorView>,
) -> Result<Seq<Iec61850DataView>, ReportErrorView> {
    match rest {
        Ok(tail) => Ok(head + tail),
        Err(e) => Err(e),
    }
}

/// Converts the access results of an information report into values.
#[verifier::loop_isolation(false)]
pub fn report_values(results: Vec<AccessResult<MmsData>>) -> (res: Result<
    Vec<Iec61850Data>,
    ReportError,
>)
    ensures
        match res {
            Ok(values) => spec_report_values(results@) == Ok::<
                Seq<Iec61850DataView>,
                ReportErrorView,
            >(data_views(values@)),
            Err(e) => spec_report_values(results@) == Err::<
                Seq<Iec61850DataView>,
                ReportErrorView,
            >(e@),
        },
{
    let ghost all = results@;
    let mut values: Vec<Iec61850Data> = Vec::new();
    proof {
        assert(all.skip(0) == all);
        assert(data_views(values@) =~= Seq::empty());
        let rest = spec_report_values(all);
        if rest is Ok {
            assert(Seq::<Iec61850DataView>::empty() + rest->Ok_0 =~= rest->Ok_0);
        }
    }
    for result in it: results.into_iter()
        invariant
            it.seq() == all,
            values@.len() == it.index(),
            spec_report_values(all) == spec_values_prepend(
                data_views(values@),
                spec_report_values(all.skip(it.index() as int)),
            ),
    {
        let ghost rest = all.skip(it.index() as int);
        let ghost before = data_views(values@);
        proof {
            assert(rest[0] == result);
            assert(rest.drop_first() == all.skip(it.index() + 1));
        }
        match result {
            AccessResult::Success(data) => match Iec61850Data::from_mms(data) {
                Ok(value) => {
                    values.push(value);
                    proof {
                        let tail = spec_report_values(rest.drop_first());
                        assert(data_views(values@) =~= before + seq![value@]);
                        if tail is Ok {
                            assert(before + (seq![value@] + tail->Ok_0) =~= (before + seq![
                                value@,
                            ]) + tail->Ok_0);
                        }
                    }
                },
                Err(e) => {
                    return Err(ReportError::FailedToConvertData { source: e });
                },
            },
            AccessResult::Failure(error) => {
                return Err(ReportError::FailedToConvertAccessResults { data_access_error: error });
            },
        }
    }
    proof {
        assert(all.skip(all.len() as int) =~= Seq::<AccessResult<MmsData>>::empty());
        assert(data_views(values@) + Seq::<Iec61850DataView>::empty() =~= data_views(values@));
    }
    Ok(values)
}

impl Report {
    /// Reads a report from the access results of an information report as
    /// the codec hands them over: the values are converted in order, then
    /// the report is read from them.
    pub fn from_information_report(results: Vec<AccessResult<MmsData>>) -> (res: Result<
        Self,
        ReportError,
    >)
        ensures
            match spec_report_values(results@) {
                Err(e) => res matches Err(error) && error@ == e,
                Ok(views) => exists|values: Seq<Iec61850Data>| #[trigger]
                    data_views(values) == views && match res {
                        Ok(report) => Self::spec_error(values) is None && report.spec_holds(
                            values,
                        ),
                        Err(e) => Self::spec_error(values) == Some(e@),
                    },
            },
    {
        match report_values(results) {
            Ok(values) => {
                let ghost given = values@;
                let res: Result<Self, ReportError> = Self::from_values(values);
                assert(data_views(given) == spec_report_values(results@)->Ok_0);
                res
            },
            Err(e) => Err(e),
        }
    }
}

} // verus!
