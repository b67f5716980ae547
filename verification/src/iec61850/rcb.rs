//! Report control blocks: their options and how they are read from data.

use vstd::prelude::*;
use crate::iec61850::data::Bitstring;
use crate::iec61850::data::Iec61850Data;
use crate::iec61850::data::Iec61850DataError;
use crate::iec61850::data::Timestamp;

verus! {

/// A reason for which a report is sent.
#[derive(Debug, Clone, Copy, PartialEq, Eq, Structural)]
pub enum TriggerOptions {
    /// The data changed.
    DataChange,
    /// The quality changed.
    QualityChange,
    /// The data was updated.
    DataUpdate,
    /// The integrity period ran out.
    Integrity,
    /// A general interrogation was asked for.
    Gi,
}

/// A field that a report may carry.
#[derive(Debug, Clone, Copy, PartialEq, Eq, Structural)]
pub enum OptionalFields {
    /// The sequence number.
    SequenceNumber,
    /// The time of the report.
    ReportTimestamp,
    /// The reason for transmission.
    ReasonForTransmission,
    /// The name of the data set.
    DataSetName,
    /// The references of the data.
    DataReference,
    /// The buffer overflow flag.
    BufferOverflow,
    /// The entry id.
    EntryID,
    /// The configuration revision.
    ConfigurationRevision,
    /// The segmentation.
    Segmentation,
}

impl TriggerOptions {
    /// The bit that stands for the option.
    pub open spec fn spec_code(self) -> u8 {
        match self {
            TriggerOptions::DataChange => 0x02,
            TriggerOptions::QualityChange => 0x04,
            TriggerOptions::DataUpdate => 0x08,
            TriggerOptions::Integrity => 0x10,
            TriggerOptions::Gi => 0x20,
        }
    }

    /// The bit that stands for the option.
    pub fn code(self) -> (res: u8)
        ensures
            res == self.spec_code(),
    {
        match self {
            TriggerOptions::DataChange => 0x02,
            TriggerOptions::QualityChange => 0x04,
            TriggerOptions::DataUpdate => 0x08,
            TriggerOptions::Integrity => 0x10,
            TriggerOptions::Gi => 0x20,
        }
    }

    /// The option alone if its bit is set in the byte, else nothing.
    pub open spec fn spec_if_set(self, byte: u8) -> Seq<TriggerOptions> {
        if byte & self.spec_code() != 0 {
            seq![self]
        } else {
            Seq::empty()
        }
    }

    /// The options whose bits are set in a byte, in the order of the bits.
    pub open spec fn spec_from_byte(byte: u8) -> Seq<TriggerOptions> {
        TriggerOptions::DataChange.spec_if_set(byte) + TriggerOptions::QualityChange.spec_if_set(
            byte,
        ) + TriggerOptions::DataUpdate.spec_if_set(byte) + TriggerOptions::Integrity.spec_if_set(
            byte,
        ) + TriggerOptions::Gi.spec_if_set(byte)
    }

    /// The bits of a sequence of options, joined.
    pub open spec fn spec_to_byte(options: Seq<TriggerOptions>) -> u8
        decreases options.len(),
    {
        if options.len() == 0 {
            0
        } else {
            Self::spec_to_byte(options.drop_last()) | options.last().spec_code()
        }
    }

    /// The options that data gives: those whose bits are set in the one
    /// byte of a bit string. Other data, and a bit string of another
    /// length, cannot be converted.
    pub open spec fn spec_from_data(value: Iec61850Data) -> Result<
        Seq<TriggerOptions>,
        Iec61850DataError,
    > {
        match value {
            Iec61850Data::BitString(bits) => if bits.bytes@.len() != 1 {
                Err(Iec61850DataError::InvalidConversion)
            } else {
                Ok(Self::spec_from_byte(bits.bytes@[0]))
            },
            _ => Err(Iec61850DataError::InvalidConversion),
        }
    }

    /// Appends the option if its bit is set in the byte.
    pub fn push_if_set(self, byte: u8, options: &mut Vec<TriggerOptions>)
        ensures
            final(options)@ == old(options)@ + self.spec_if_set(byte),
    {
        if byte & self.code() != 0 {
            options.push(self);
            assert(options@ =~= old(options)@ + self.spec_if_set(byte));
        } else {
            assert(options@ =~= old(options)@ + self.spec_if_set(byte));
        }
    }

    /// Reads the options from data.
    pub fn from_data(value: Iec61850Data) -> (res: Result<Vec<TriggerOptions>, Iec61850DataError>)
        ensures
            match res {
                Ok(options) => Self::spec_from_data(value) == Ok::<
                    Seq<TriggerOptions>,
                    Iec61850DataError,
                >(options@),
                Err(e) => Self::spec_from_data(value) == Err::<
                    Seq<TriggerOptions>,
                    Iec61850DataError,
                >(e),
            },
    {
        match value {
            Iec61850Data::BitString(value) => {
                let mut options: Vec<TriggerOptions> = Vec::new();
                if value.bytes.len() != 1 {
                    return Err(Iec61850DataError::InvalidConversion);
                }
                let option_byte: u8 = value.bytes[0];
                assert(options@ =~= Seq::<TriggerOptions>::empty());
                TriggerOptions::DataChange.push_if_set(option_byte, &mut options);
                TriggerOptions::QualityChange.push_if_set(option_byte, &mut options);
                TriggerOptions::DataUpdate.push_if_set(option_byte, &mut options);
                TriggerOptions::Integrity.push_if_set(option_byte, &mut options);
                TriggerOptions::Gi.push_if_set(option_byte, &mut options);
                assert(Seq::<TriggerOptions>::empty() + TriggerOptions::DataChange.spec_if_set(
                    option_byte,
                ) =~= TriggerOptions::DataChange.spec_if_set(option_byte));
                assert(options@ =~= Self::spec_from_byte(option_byte));
                Ok(options)
            },
            _ => Err(Iec61850DataError::InvalidConversion),
        }
    }

    /// Writes options as a bit string of one byte with two bits of padding.
    pub fn to_bitstring(value: Vec<TriggerOptions>) -> (res: Bitstring)
        ensures
            res.bytes@ == seq![Self::spec_to_byte(value@)],
            res.padding == 2,
    {
        let mut byte: u8 = 0;
        let mut i: usize = 0;
        while i < value.len()
            invariant
                i <= value@.len(),
                byte == Self::spec_to_byte(value@.take(i as int)),
            decreases value@.len() - i,
        {
            assert(value@.take(i + 1).drop_last() == value@.take(i as int));
            byte = byte | value[i].code();
            i = i + 1;
        }
        assert(value@.take(value@.len() as int) == value@);
        Bitstring { bytes: vec![byte], padding: 2 }
    }
}

impl OptionalFields {
    /// The bit that stands for the field.
    pub open spec fn spec_code(self) -> u16 {
        match self {
            OptionalFields::SequenceNumber => 0x0002,
            OptionalFields::ReportTimestamp => 0x0004,
            OptionalFields::ReasonForTransmission => 0x0008,
            OptionalFields::DataSetName => 0x0010,
            OptionalFields::DataReference => 0x0020,
            OptionalFields::BufferOverflow => 0x0040,
            OptionalFields::EntryID => 0x0080,
            OptionalFields::ConfigurationRevision => 0x0100,
            OptionalFields::Segmentation => 0x0200,
        }
    }

    /// The bit that stands for the field.
    pub fn code(self) -> (res: u16)
        ensures
            res == self.spec_code(),
    {
        match self {
            OptionalFields::SequenceNumber => 0x0002,
            OptionalFields::ReportTimestamp => 0x0004,
            OptionalFields::ReasonForTransmission => 0x0008,
            OptionalFields::DataSetName => 0x0010,
            OptionalFields::DataReference => 0x0020,
            OptionalFields::BufferOverflow => 0x0040,
            OptionalFields::EntryID => 0x0080,
            OptionalFields::ConfigurationRevision => 0x0100,
            OptionalFields::Segmentation => 0x0200,
        }
    }

    /// The field alone if its bit is set in the word, else nothing.
    pub open spec fn spec_if_set(self, word: u16) -> Seq<OptionalFields> {
        if word & self.spec_code() != 0 {
            seq![self]
        } else {
            Seq::empty()
        }
    }

    /// The fields whose bits are set in a word, in the order of the bits.
    pub open spec fn spec_from_word(word: u16) -> Seq<OptionalFields> {
        OptionalFields::SequenceNumber.spec_if_set(word)
            + OptionalFields::ReportTimestamp.spec_if_set(word)
            + OptionalFields::ReasonForTransmission.spec_if_set(word)
            + OptionalFields::DataSetName.spec_if_set(word)
            + OptionalFields::DataReference.spec_if_set(word)
            + OptionalFields::BufferOverflow.spec_if_set(word) + OptionalFields::EntryID.spec_if_set(
            word,
        ) + OptionalFields::ConfigurationRevision.spec_if_set(word)
            + OptionalFields::Segmentation.spec_if_set(word)
    }

    /// The bits of a sequence of fields, joined.
    pub open spec fn spec_to_word(fields: Seq<OptionalFields>) -> u16
        decreases fields.len(),
    {
        if fields.len() == 0 {
            0
        } else {
            Self::spec_to_word(fields.drop_last()) | fields.last().spec_code()
        }
    }

    /// The word that two bytes stand for, low byte first.
    pub open spec fn spec_word(low: u8, high: u8) -> u16 {
        (low as int + 256 * high as int) as u16
    }

    /// The fields that data gives: those whose bits are set in the two
    /// bytes of a bit string, low byte first. Other data, and a bit string
    /// of another length, cannot be converted.
    pub open spec fn spec_from_data(value: Iec61850Data) -> Result<
        Seq<OptionalFields>,
        Iec61850DataError,
    > {
        match value {
            Iec61850Data::BitString(bits) => if bits.bytes@.len() != 2 {
                Err(Iec61850DataError::InvalidConversion)
            } else {
                Ok(Self::spec_from_word(Self::spec_word(bits.bytes@[0], bits.bytes@[1])))
            },
            _ => Err(Iec61850DataError::InvalidConversion),
        }
    }

    /// Appends the field if its bit is set in the word.
    pub fn push_if_set(self, word: u16, fields: &mut Vec<OptionalFields>)
        ensures
            final(fields)@ == old(fields)@ + self.spec_if_set(word),
    {
        if word & self.code() != 0 {
            fields.push(self);
            assert(fields@ =~= old(fields)@ + self.spec_if_set(word));
        } else {
            assert(fields@ =~= old(fields)@ + self.spec_if_set(word));
        }
    }

    /// Reads the fields from data.
    pub fn from_data(value: Iec61850Data) -> (res: Result<Vec<OptionalFields>, Iec61850DataError>)
        ensures
            match res {
                Ok(fields) => Self::spec_from_data(value) == Ok::<
                    Seq<OptionalFields>,
                    Iec61850DataError,
                >(fields@),
                Err(e) => Self::spec_from_data(value) == Err::<
                    Seq<OptionalFields>,
                    Iec61850DataError,
                >(e),
            },
    {
        match value {
            Iec61850Data::BitString(value) => {
                let mut options: Vec<OptionalFields> = Vec::new();
                if value.bytes.len() != 2 {
                    return Err(Iec61850DataError::InvalidConversion);
                }
                let optional_fields: u16 = value.bytes[0] as u16 + 256 * (value.bytes[1] as u16);
                assert(options@ =~= Seq::<OptionalFields>::empty());
                OptionalFields::SequenceNumber.push_if_set(optional_fields, &mut options);
                OptionalFields::ReportTimestamp.push_if_set(optional_fields, &mut options);
                OptionalFields::ReasonForTransmission.push_if_set(optional_fields, &mut options);
                OptionalFields::DataSetName.push_if_set(optional_fields, &mut options);
                OptionalFields::DataReference.push_if_set(optional_fields, &mut options);
                OptionalFields::BufferOverflow.push_if_set(optional_fields, &mut options);
                OptionalFields::EntryID.push_if_set(optional_fields, &mut options);
                OptionalFields::ConfigurationRevision.push_if_set(optional_fields, &mut options);
                OptionalFields::Segmentation.push_if_set(optional_fields, &mut options);
                assert(Seq::<OptionalFields>::empty()
                    + OptionalFields::SequenceNumber.spec_if_set(optional_fields)
                    =~= OptionalFields::SequenceNumber.spec_if_set(optional_fields));
                assert(options@ =~= Self::spec_from_word(optional_fields));
                Ok(options)
            },
            _ => Err(Iec61850DataError::InvalidConversion),
        }
    }

    /// Writes fields as a bit string of two bytes, low byte first, with six
    /// bits of padding.
    pub fn to_bitstring(value: Vec<OptionalFields>) -> (res: Bitstring)
        ensures
            res.bytes@ == seq![
                (Self::spec_to_word(value@) % 256) as u8,
                (Self::spec_to_word(value@) / 256) as u8,
            ],
            res.padding == 6,
    {
        let mut word: u16 = 0;
        let mut i: usize = 0;
        while i < value.len()
            invariant
                i <= value@.len(),
                word == Self::spec_to_word(value@.take(i as int)),
            decreases value@.len() - i,
        {
            assert(value@.take(i + 1).drop_last() == value@.take(i as int));
            word = word | value[i].code();
            i = i + 1;
        }
        assert(value@.take(value@.len() as int) == value@);
        Bitstring { bytes: vec![(word % 256) as u8, (word / 256) as u8], padding: 6 }
    }
}

impl From<Vec<TriggerOptions>> for Bitstring {
    /// Writes options as a bit string of one byte with two bits of padding.
    fn from(value: Vec<TriggerOptions>) -> (res: Bitstring)
        ensures
            res.bytes@ == seq![TriggerOptions::spec_to_byte(value@)],
            res.padding == 2,
    {
        TriggerOptions::to_bitstring(value)
    }
}

impl vstd::std_specs::convert::FromSpecImpl<Vec<TriggerOptions>> for Bitstring {
    open spec fn obeys_from_spec() -> bool {
        false
    }

    open spec fn from_spec(value: Vec<TriggerOptions>) -> Bitstring {
        arbitrary()
    }
}

impl From<Vec<OptionalFields>> for Bitstring {
    /// Writes fields as a bit string of two bytes, low byte first, with six
    /// bits of padding.
    fn from(value: Vec<OptionalFields>) -> (res: Bitstring)
        ensures
            res.bytes@ == seq![
                (OptionalFields::spec_to_word(value@) % 256) as u8,
                (OptionalFields::spec_to_word(value@) / 256) as u8,
            ],
            res.padding == 6,
    {
        OptionalFields::to_bitstring(value)
    }
}

impl vstd::std_specs::convert::FromSpecImpl<Vec<OptionalFields>> for Bitstring {
    open spec fn obeys_from_spec() -> bool {
        false
    }

    open spec fn from_spec(value: Vec<OptionalFields>) -> Bitstring {
        arbitrary()
    }
}

impl From<Vec<TriggerOptions>> for Iec61850Data {
    /// Writes options as data: a bit string of one byte with two bits of
    /// padding.
    fn from(value: Vec<TriggerOptions>) -> (res: Iec61850Data)
        ensures
            res matches Iec61850Data::BitString(bits) && bits.bytes@ == seq![
                TriggerOptions::spec_to_byte(value@),
            ] && bits.padding == 2,
    {
        Iec61850Data::BitString(TriggerOptions::to_bitstring(value))
    }
}

impl vstd::std_specs::convert::FromSpecImpl<Vec<TriggerOptions>> for Iec61850Data {
    open spec fn obeys_from_spec() -> bool {
        false
    }

    open spec fn from_spec(value: Vec<TriggerOptions>) -> Iec61850Data {
        arbitrary()
    }
}

impl From<Vec<OptionalFields>> for Iec61850Data {
    /// Writes fields as data: a bit string of two bytes, low byte first,
    /// with six bits of padding.
    fn from(value: Vec<OptionalFields>) -> (res: Iec61850Data)
        ensures
            res matches Iec61850Data::BitString(bits) && bits.bytes@ == seq![
                (OptionalFields::spec_to_word(value@) % 256) as u8,
                (OptionalFields::spec_to_word(value@) / 256) as u8,
            ] && bits.padding == 6,
    {
        Iec61850Data::BitString(OptionalFields::to_bitstring(value))
    }
}

impl vstd::std_specs::convert::FromSpecImpl<Vec<OptionalFields>> for Iec61850Data {
    open spec fn obeys_from_spec() -> bool {
        false
    }

    open spec fn from_spec(value: Vec<OptionalFields>) -> Iec61850Data {
        arbitrary()
    }
}

impl TryFrom<Iec61850Data> for Vec<TriggerOptions> {
    type Error = Iec61850DataError;

    /// Reads the trigger options from data: those whose bits are set in
    /// the one byte of a bit string. Other data, and a bit string of another
    /// length, cannot be converted.
    fn try_from(value: Iec61850Data) -> (res: Result<Vec<TriggerOptions>, Iec61850DataError>)
        ensures
            match res {
                Ok(options) => TriggerOptions::spec_from_data(value) == Ok::<
                    Seq<TriggerOptions>,
                    Iec61850DataError,
                >(options@),
                Err(e) => TriggerOptions::spec_from_data(value) == Err::<
                    Seq<TriggerOptions>,
                    Iec61850DataError,
                >(e),
            },
    {
        TriggerOptions::from_data(value)
    }
}

impl vstd::std_specs::convert::TryFromSpecImpl<Iec61850Data> for Vec<TriggerOptions> {
    open spec fn obeys_try_from_spec() -> bool {
        false
    }

    open spec fn try_from_spec(value: Iec61850Data) -> Result<
        Vec<TriggerOptions>,
        Iec61850DataError,
    > {
        arbitrary()
    }
}

impl TryFrom<Iec61850Data> for Vec<OptionalFields> {
    type Error = Iec61850DataError;

    /// Reads the optional fields from data: those whose bits are set in
    /// the two bytes of a bit string, low byte first. Other data, and a bit
    /// string of another length, cannot be converted.
    fn try_from(value: Iec61850Data) -> (res: Result<Vec<OptionalFields>, Iec61850DataError>)
        ensures
            match res {
                Ok(fields) => OptionalFields::spec_from_data(value) == Ok::<
                    Seq<OptionalFields>,
                    Iec61850DataError,
                >(fields@),
                Err(e) => OptionalFields::spec_from_data(value) == Err::<
                    Seq<OptionalFields>,
                    Iec61850DataError,
                >(e),
            },
    {
        OptionalFields::from_data(value)
    }
}

impl vstd::std_specs::convert::TryFromSpecImpl<Iec61850Data> for Vec<OptionalFields> {
    open spec fn obeys_try_from_spec() -> bool {
        false
    }

    open spec fn try_from_spec(value: Iec61850Data) -> Result<
        Vec<OptionalFields>,
        Iec61850DataError,
    > {
        arbitrary()
    }
}

/// What is wrong with one field of a list of data.
pub enum FieldError {
    /// The list ends before the field.
    Missing(Seq<char>),
    /// The data of the field is of another kind.
    Invalid(Seq<char>, Iec61850DataError),
}

/// What can go wrong when a report control block is read from data.
#[derive(Debug, Clone, PartialEq, Eq)]
pub enum ReportControlBlockError {
    /// The data ends before the field.
    MissingField { field: String },
    /// The data of the field is of another kind.
    InvalidConversion { field: String, source: Iec61850DataError },
    /// The data has neither the length of a buffered nor of an unbuffered
    /// report control block.
    InvalidDataLength { length: usize },
}

/// The ghost model of the errors of a report control block.
pub enum RcbErrorView {
    /// Something is wrong with a field.
    Field(FieldError),
    /// The data has neither of the two lengths.
    InvalidDataLength(usize),
}

impl View for ReportControlBlockError {
    type V = RcbErrorView;

    open spec fn view(&self) -> RcbErrorView {
        match self {
            ReportControlBlockError::MissingField { field } => RcbErrorView::Field(
                FieldError::Missing(field@),
            ),
            ReportControlBlockError::InvalidConversion { field, source } => RcbErrorView::Field(
                FieldError::Invalid(field@, *source),
            ),
            ReportControlBlockError::InvalidDataLength { length } => RcbErrorView::InvalidDataLength(
                *length,
            ),
        }
    }
}

/// The error of a conversion, if it failed.
pub open spec fn spec_err<T>(res: Result<T, Iec61850DataError>) -> Option<Iec61850DataError> {
    match res {
        Ok(_) => None,
        Err(e) => Some(e),
    }
}

/// The `k`-th value of a list, counted from its end.
pub open spec fn spec_nth_last(data: Seq<Iec61850Data>, k: int) -> Iec61850Data {
    data[data.len() - 1 - k]
}

/// What is wrong with the field that is read `k`-th from the end of a list
/// and is to be of the given kind.
pub open spec fn spec_check(
    data: Seq<Iec61850Data>,
    k: int,
    field: Seq<char>,
    kind: Kind,
) -> Option<FieldError> {
    if data.len() <= k {
        Some(FieldError::Missing(field))
    } else {
        match spec_failure(kind, spec_nth_last(data, k)) {
            Some(e) => Some(FieldError::Invalid(field, e)),
            None => None,
        }
    }
}

/// The first of two findings.
pub open spec fn spec_or(first: Option<FieldError>, second: Option<FieldError>) -> Option<
    FieldError,
> {
    if first is Some {
        first
    } else {
        second
    }
}

/// The kind of data that a field asks for.
pub enum Kind {
    /// A boolean.
    Bool,
    /// An unsigned integer.
    Unsigned,
    /// An integer.
    Integer,
    /// A visible or MMS string.
    Text,
    /// An octet string.
    Octets,
    /// A UTC or binary time.
    Time,
    /// A bit string of trigger options.
    Triggers,
    /// A bit string of optional fields.
    Fields,
    /// A bit string.
    Bits,
    /// Any data.
    Any,
}

/// Why data is not of a kind, if it is not.
pub open spec fn spec_failure(kind: Kind, value: Iec61850Data) -> Option<Iec61850DataError> {
    match kind {
        Kind::Bool => spec_err(value.spec_bool()),
        Kind::Unsigned => spec_err(value.spec_u32()),
        Kind::Integer => spec_err(value.spec_i32()),
        Kind::Text => spec_err(value.spec_string()),
        Kind::Octets => spec_err(value.spec_octets()),
        Kind::Time => spec_err(value.spec_time()),
        Kind::Triggers => spec_err(TriggerOptions::spec_from_data(value)),
        Kind::Fields => spec_err(OptionalFields::spec_from_data(value)),
        Kind::Bits => spec_err(value.spec_bitstring()),
        Kind::Any => None,
    }
}

/// Takes the last value off a list of data, for the named field.
pub fn take_last(data: &mut Vec<Iec61850Data>, field: &str) -> (res: Result<
    Iec61850Data,
    ReportControlBlockError,
>)
    ensures
        match res {
            Ok(value) => {
                &&& old(data)@.len() > 0
                &&& value == old(data)@.last()
                &&& final(data)@ == old(data)@.drop_last()
            },
            Err(e) => {
                &&& old(data)@.len() == 0
                &&& final(data)@ == old(data)@
                &&& e@ == RcbErrorView::Field(FieldError::Missing(field@))
            },
        },
{
    match data.pop() {
        Some(value) => Ok(value),
        None => Err(ReportControlBlockError::MissingField { field: field.to_owned() }),
    }
}

/// The error for data that is of another kind than the named field.
pub fn invalid_conversion(field: &str, source: Iec61850DataError) -> (res: ReportControlBlockError)
    ensures
        res@ == RcbErrorView::Field(FieldError::Invalid(field@, source)),
{
    ReportControlBlockError::InvalidConversion { field: field.to_owned(), source }
}

/// An unbuffered report control block.
#[derive(Debug, Clone, PartialEq, Eq)]
pub struct UnbufferedReportControlBlock {
    /// The name of the report control block.
    pub name: String,
    /// The id of the reports.
    pub id: String,
    /// Whether reporting is enabled.
    pub enabled: bool,
    /// Whether the block is reserved.
    pub reservation: bool,
    /// The data set that is reported.
    pub dataset: String,
    /// The configuration revision.
    pub config_rev: u32,
    /// The fields that the reports carry.
    pub optional_fields: Vec<OptionalFields>,
    /// The buffer time.
    pub buffer_time: u32,
    /// The sequence number.
    pub sequence_number: u32,
    /// The reasons for which reports are sent.
    pub trigger_options: Vec<TriggerOptions>,
    /// The integrity period.
    pub integrity_period: u32,
    /// Whether a general interrogation is asked for.
    pub gi: bool,
}

/// A buffered report control block.
#[derive(Debug, Clone, PartialEq, Eq)]
pub struct BufferedReportControlBlock {
    /// The name of the report control block.
    pub name: String,
    /// The id of the reports.
    pub id: String,
    /// Whether reporting is enabled.
    pub enabled: bool,
    /// The data set that is reported.
    pub dataset: String,
    /// The configuration revision.
    pub config_rev: u32,
    /// The fields that the reports carry.
    pub optional_fields: Vec<OptionalFields>,
    /// The buffer time.
    pub buffer_time: u32,
    /// The sequence number.
    pub sequence_number: u32,
    /// The reasons for which reports are sent.
    pub trigger_options: Vec<TriggerOptions>,
    /// The integrity period.
    pub integrity_period: u32,
    /// Whether a general interrogation is asked for.
    pub gi: bool,
    /// Whether the buffer is to be purged.
    pub purge_buffer: bool,
    /// The id of the last entry.
    pub entry_id: Vec<u8>,
    /// The time of the last entry.
    pub time_of_entry: Timestamp,
    /// The reservation time.
    pub reservation_time: i32,
}

/// A report control block of either kind.
#[derive(Debug, Clone, PartialEq, Eq)]
pub enum ReportControlBlock {
    /// A buffered report control block.
    Buffered(BufferedReportControlBlock),
    /// An unbuffered report control block.
    Unbuffered(UnbufferedReportControlBlock),
}

impl UnbufferedReportControlBlock {
    /// What is wrong with data as an unbuffered report control block: the
    /// first of its eleven fields, read from the end of the data, that is
    /// missing or of another kind.
    pub open spec fn spec_error(data: Seq<Iec61850Data>) -> Option<FieldError> {
        spec_or(
            spec_check(data, 0, "gi"@, Kind::Bool),
            spec_or(
                spec_check(data, 1, "integrity_period"@, Kind::Unsigned),
                spec_or(
                    spec_check(data, 2, "trigger_options"@, Kind::Triggers),
                    spec_or(
                        spec_check(data, 3, "sequence_number"@, Kind::Unsigned),
                        spec_or(
                            spec_check(data, 4, "buffer_time"@, Kind::Unsigned),
                            spec_or(
                                spec_check(data, 5, "optional_fields"@, Kind::Fields),
                                spec_or(
                                    spec_check(data, 6, "config_rev"@, Kind::Unsigned),
                                    spec_or(
                                        spec_check(data, 7, "dataset"@, Kind::Text),
                                        spec_or(
                                            spec_check(
                                                data,
                                                8,
                                                "reservation"@,
                                                Kind::Bool,
                                            ),
                                            spec_or(
                                                spec_check(
                                                    data,
                                                    9,
                                                    "enabled"@,
                                                    Kind::Bool,
                                                ),
                                                spec_check(
                                                    data,
                                                    10,
                                                    "id"@,
                                                    Kind::Text,
                                                ),
                                            ),
                                        ),
                                    ),
                                ),
                            ),
                        ),
                    ),
                ),
            ),
        )
    }

    /// Whether the block holds what the last eleven values of the data say,
    /// field by field.
    pub open spec fn spec_holds(self, name: String, data: Seq<Iec61850Data>) -> bool {
        &&& self.name == name
        &&& spec_nth_last(data, 0).spec_bool() == Ok::<bool, Iec61850DataError>(self.gi)
        &&& spec_nth_last(data, 1).spec_u32() == Ok::<u32, Iec61850DataError>(
            self.integrity_period,
        )
        &&& TriggerOptions::spec_from_data(spec_nth_last(data, 2)) == Ok::<
            Seq<TriggerOptions>,
            Iec61850DataError,
        >(self.trigger_options@)
        &&& spec_nth_last(data, 3).spec_u32() == Ok::<u32, Iec61850DataError>(self.sequence_number)
        &&& spec_nth_last(data, 4).spec_u32() == Ok::<u32, Iec61850DataError>(self.buffer_time)
        &&& OptionalFields::spec_from_data(spec_nth_last(data, 5)) == Ok::<
            Seq<OptionalFields>,
            Iec61850DataError,
        >(self.optional_fields@)
        &&& spec_nth_last(data, 6).spec_u32() == Ok::<u32, Iec61850DataError>(self.config_rev)
        &&& spec_nth_last(data, 7).spec_string() == Ok::<String, Iec61850DataError>(self.dataset)
        &&& spec_nth_last(data, 8).spec_bool() == Ok::<bool, Iec61850DataError>(self.reservation)
        &&& spec_nth_last(data, 9).spec_bool() == Ok::<bool, Iec61850DataError>(self.enabled)
        &&& spec_nth_last(data, 10).spec_string() == Ok::<String, Iec61850DataError>(self.id)
    }

    /// Reads an unbuffered report control block from the last eleven values
    /// of the data: id, enabled, reservation, dataset, configuration
    /// revision, optional fields, buffer time, sequence number, trigger
    /// options, integrity period and general interrogation.
    pub fn from_data(name: String, data: Vec<Iec61850Data>) -> (res: Result<
        Self,
        ReportControlBlockError,
    >)
        ensures
            match res {
                Ok(rcb) => Self::spec_error(data@) is None && data@.len() >= 11 && rcb.spec_holds(
                    name,
                    data@,
                ),
                Err(e) => Self::spec_error(data@) matches Some(f) && e@ == RcbErrorView::Field(f),
            },
    {
        let ghost all = data@;
        let mut data = data;
        let value: Iec61850Data = take_last(&mut data, "gi")?;
        let gi: bool = match bool::try_from(value) {
            Ok(v) => v,
            Err(e) => {
                return Err(invalid_conversion("gi", e));
            },
        };
        let value: Iec61850Data = take_last(&mut data, "integrity_period")?;
        let integrity_period: u32 = match u32::try_from(value) {
            Ok(v) => v,
            Err(e) => {
                return Err(invalid_conversion("integrity_period", e));
            },
        };
        let value: Iec61850Data = take_last(&mut data, "trigger_options")?;
        let trigger_options: Vec<TriggerOptions> = match TriggerOptions::from_data(value) {
            Ok(v) => v,
            Err(e) => {
                return Err(invalid_conversion("trigger_options", e));
            },
        };
        let value: Iec61850Data = take_last(&mut data, "sequence_number")?;
        let sequence_number: u32 = match u32::try_from(value) {
            Ok(v) => v,
            Err(e) => {
                return Err(invalid_conversion("sequence_number", e));
            },
        };
        let value: Iec61850Data = take_last(&mut data, "buffer_time")?;
        let buffer_time: u32 = match u32::try_from(value) {
            Ok(v) => v,
            Err(e) => {
                return Err(invalid_conversion("buffer_time", e));
            },
        };
        let value: Iec61850Data = take_last(&mut data, "optional_fields")?;
        let optional_fields: Vec<OptionalFields> = match OptionalFields::from_data(value) {
            Ok(v) => v,
            Err(e) => {
                return Err(invalid_conversion("optional_fields", e));
            },
        };
        let value: Iec61850Data = take_last(&mut data, "config_rev")?;
        let config_rev: u32 = match u32::try_from(value) {
            Ok(v) => v,
            Err(e) => {
                return Err(invalid_conversion("config_rev", e));
            },
        };
        let value: Iec61850Data = take_last(&mut data, "dataset")?;
        let dataset: String = match String::try_from(value) {
            Ok(v) => v,
            Err(e) => {
                return Err(invalid_conversion("dataset", e));
            },
        };
        let value: Iec61850Data = take_last(&mut data, "reservation")?;
        let reservation: bool = match bool::try_from(value) {
            Ok(v) => v,
            Err(e) => {
                return Err(invalid_conversion("reservation", e));
            },
        };
        let value: Iec61850Data = take_last(&mut data, "enabled")?;
        let enabled: bool = match bool::try_from(value) {
            Ok(v) => v,
            Err(e) => {
                return Err(invalid_conversion("enabled", e));
            },
        };
        let value: Iec61850Data = take_last(&mut data, "id")?;
        let id: String = match String::try_from(value) {
            Ok(v) => v,
            Err(e) => {
                return Err(invalid_conversion("id", e));
            },
        };
        Ok(
            Self {
                name,
                id,
                enabled,
                reservation,
                dataset,
                config_rev,
                optional_fields,
                buffer_time,
                sequence_number,
                trigger_options,
                integrity_period,
                gi,
            },
        )
    }
}

impl BufferedReportControlBlock {
    /// What is wrong with the first seven fields that are read from the end
    /// of the data.
    pub open spec fn spec_error_late(data: Seq<Iec61850Data>) -> Option<FieldError> {
        spec_or(
            spec_check(data, 0, "reservation_time"@, Kind::Integer),
            spec_or(
                spec_check(data, 1, "time_of_entry"@, Kind::Time),
                spec_or(
                    spec_check(data, 2, "entry_id"@, Kind::Octets),
                    spec_or(
                        spec_check(data, 3, "purge_buffer"@, Kind::Bool),
                        spec_or(
                            spec_check(data, 4, "gi"@, Kind::Bool),
                            spec_or(
                                spec_check(data, 5, "integrity_period"@, Kind::Unsigned),
                                spec_check(data, 6, "trigger_options"@, Kind::Triggers),
                            ),
                        ),
                    ),
                ),
            ),
        )
    }

    /// What is wrong with the other seven fields.
    pub open spec fn spec_error_early(data: Seq<Iec61850Data>) -> Option<FieldError> {
        spec_or(
            spec_check(data, 7, "sequence_number"@, Kind::Unsigned),
            spec_or(
                spec_check(data, 8, "buffer_time"@, Kind::Unsigned),
                spec_or(
                    spec_check(data, 9, "optional_fields"@, Kind::Fields),
                    spec_or(
                        spec_check(data, 10, "config_rev"@, Kind::Unsigned),
                        spec_or(
                            spec_check(data, 11, "dataset"@, Kind::Text),
                            spec_or(
                                spec_check(data, 12, "enabled"@, Kind::Bool),
                                spec_check(data, 13, "id"@, Kind::Text),
                            ),
                        ),
                    ),
                ),
            ),
        )
    }

    /// What is wrong with data as a buffered report control block: the
    /// first of its fourteen fields, read from the end of the data, that is
    /// missing or of another kind.
    pub open spec fn spec_error(data: Seq<Iec61850Data>) -> Option<FieldError> {
        spec_or(Self::spec_error_late(data), Self::spec_error_early(data))
    }

    /// Whether the block holds what the last fourteen values of the data
    /// say, field by field.
    pub open spec fn spec_holds(self, name: String, data: Seq<Iec61850Data>) -> bool {
        &&& self.name == name
        &&& spec_nth_last(data, 0).spec_i32() == Ok::<i32, Iec61850DataError>(
            self.reservation_time,
        )
        &&& spec_nth_last(data, 1).spec_time() == Ok::<Timestamp, Iec61850DataError>(
            self.time_of_entry,
        )
        &&& spec_nth_last(data, 2).spec_octets() == Ok::<Vec<u8>, Iec61850DataError>(self.entry_id)
        &&& spec_nth_last(data, 3).spec_bool() == Ok::<bool, Iec61850DataError>(self.purge_buffer)
        &&& spec_nth_last(data, 4).spec_bool() == Ok::<bool, Iec61850DataError>(self.gi)
        &&& spec_nth_last(data, 5).spec_u32() == Ok::<u32, Iec61850DataError>(
            self.integrity_period,
        )
        &&& TriggerOptions::spec_from_data(spec_nth_last(data, 6)) == Ok::<
            Seq<TriggerOptions>,
            Iec61850DataError,
        >(self.trigger_options@)
        &&& spec_nth_last(data, 7).spec_u32() == Ok::<u32, Iec61850DataError>(self.sequence_number)
        &&& spec_nth_last(data, 8).spec_u32() == Ok::<u32, Iec61850DataError>(self.buffer_time)
        &&& OptionalFields::spec_from_data(spec_nth_last(data, 9)) == Ok::<
            Seq<OptionalFields>,
            Iec61850DataError,
        >(self.optional_fields@)
        &&& spec_nth_last(data, 10).spec_u32() == Ok::<u32, Iec61850DataError>(self.config_rev)
        &&& spec_nth_last(data, 11).spec_string() == Ok::<String, Iec61850DataError>(self.dataset)
        &&& spec_nth_last(data, 12).spec_bool() == Ok::<bool, Iec61850DataError>(self.enabled)
        &&& spec_nth_last(data, 13).spec_string() == Ok::<String, Iec61850DataError>(self.id)
    }

    /// Reads a buffered report control block from the last fourteen values
    /// of the data: id, enabled, dataset, configuration revision, optional
    /// fields, buffer time, sequence number, trigger options, integrity
    /// period, general interrogation, purge buffer, entry id, time of entry
    /// and reservation time.
    pub fn from_data(name: String, data: Vec<Iec61850Data>) -> (res: Result<
        Self,
        ReportControlBlockError,
    >)
        ensures
            match res {
                Ok(rcb) => Self::spec_error(data@) is None && data@.len() >= 14 && rcb.spec_holds(
                    name,
                    data@,
                ),
                Err(e) => Self::spec_error(data@) matches Some(f) && e@ == RcbErrorView::Field(f),
            },
    {
        let mut data = data;
        let value: Iec61850Data = take_last(&mut data, "reservation_time")?;
        let reservation_time: i32 = match i32::try_from(value) {
            Ok(v) => v,
            Err(e) => {
                return Err(invalid_conversion("reservation_time", e));
            },
        };
        let value: Iec61850Data = take_last(&mut data, "time_of_entry")?;
        let time_of_entry: Timestamp = match Timestamp::try_from(value) {
            Ok(v) => v,
            Err(e) => {
                return Err(invalid_conversion("time_of_entry", e));
            },
        };
        let value: Iec61850Data = take_last(&mut data, "entry_id")?;
        let entry_id: Vec<u8> = match Vec::<u8>::try_from(value) {
            Ok(v) => v,
            Err(e) => {
                return Err(invalid_conversion("entry_id", e));
            },
        };
        let value: Iec61850Data = take_last(&mut data, "purge_buffer")?;
        let purge_buffer: bool = match bool::try_from(value) {
            Ok(v) => v,
            Err(e) => {
                return Err(invalid_conversion("purge_buffer", e));
            },
        };
        let value: Iec61850Data = take_last(&mut data, "gi")?;
        let gi: bool = match bool::try_from(value) {
            Ok(v) => v,
            Err(e) => {
                return Err(invalid_conversion("gi", e));
            },
        };
        let value: Iec61850Data = take_last(&mut data, "integrity_period")?;
        let integrity_period: u32 = match u32::try_from(value) {
            Ok(v) => v,
            Err(e) => {
                return Err(invalid_conversion("integrity_period", e));
            },
        };
        let value: Iec61850Data = take_last(&mut data, "trigger_options")?;
        let trigger_options: Vec<TriggerOptions> = match TriggerOptions::from_data(value) {
            Ok(v) => v,
            Err(e) => {
                return Err(invalid_conversion("trigger_options", e));
            },
        };
        let value: Iec61850Data = take_last(&mut data, "sequence_number")?;
        let sequence_number: u32 = match u32::try_from(value) {
            Ok(v) => v,
            Err(e) => {
                return Err(invalid_conversion("sequence_number", e));
            },
        };
        let value: Iec61850Data = take_last(&mut data, "buffer_time")?;
        let buffer_time: u32 = match u32::try_from(value) {
            Ok(v) => v,
            Err(e) => {
                return Err(invalid_conversion("buffer_time", e));
            },
        };
        let value: Iec61850Data = take_last(&mut data, "optional_fields")?;
        let optional_fields: Vec<OptionalFields> = match OptionalFields::from_data(value) {
            Ok(v) => v,
            Err(e) => {
                return Err(invalid_conversion("optional_fields", e));
            },
        };
        let value: Iec61850Data = take_last(&mut data, "config_rev")?;
        let config_rev: u32 = match u32::try_from(value) {
            Ok(v) => v,
            Err(e) => {
                return Err(invalid_conversion("config_rev", e));
            },
        };
        let value: Iec61850Data = take_last(&mut data, "dataset")?;
        let dataset: String = match String::try_from(value) {
            Ok(v) => v,
            Err(e) => {
                return Err(invalid_conversion("dataset", e));
            },
        };
        let value: Iec61850Data = take_last(&mut data, "enabled")?;
        let enabled: bool = match bool::try_from(value) {
            Ok(v) => v,
            Err(e) => {
                return Err(invalid_conversion("enabled", e));
            },
        };
        let value: Iec61850Data = take_last(&mut data, "id")?;
        let id: String = match String::try_from(value) {
            Ok(v) => v,
            Err(e) => {
                return Err(invalid_conversion("id", e));
            },
        };
        Ok(
            Self {
                name,
                id,
                enabled,
                dataset,
                config_rev,
                optional_fields,
                buffer_time,
                sequence_number,
                trigger_options,
                integrity_period,
                gi,
                purge_buffer,
                entry_id,
                time_of_entry,
                reservation_time,
            },
        )
    }
}

impl ReportControlBlock {
    /// What data gives as a report control block: fourteen values make a
    /// buffered one, eleven an unbuffered one, any other number is an
    /// invalid length; and each block holds what the values say, or the
    /// error names the first field that is missing or of another kind.
    pub open spec fn spec_from_data(
        name: String,
        data: Seq<Iec61850Data>,
        res: Result<Self, ReportControlBlockError>,
    ) -> bool {
        match res {
            Ok(ReportControlBlock::Buffered(rcb)) => {
                &&& data.len() == 14
                &&& BufferedReportControlBlock::spec_error(data) is None
                &&& rcb.spec_holds(name, data)
            },
            Ok(ReportControlBlock::Unbuffered(rcb)) => {
                &&& data.len() == 11
                &&& UnbufferedReportControlBlock::spec_error(data) is None
                &&& rcb.spec_holds(name, data)
            },
            Err(e) => if data.len() == 14 {
                BufferedReportControlBlock::spec_error(data) matches Some(f) && e@
                    == RcbErrorView::Field(f)
            } else if data.len() == 11 {
                UnbufferedReportControlBlock::spec_error(data) matches Some(f) && e@
                    == RcbErrorView::Field(f)
            } else {
                e@ == RcbErrorView::InvalidDataLength(data.len() as usize)
            },
        }
    }

    /// Reads a report control block from data.
    pub fn from_data(name: String, data: Vec<Iec61850Data>) -> (res: Result<
        Self,
        ReportControlBlockError,
    >)
        ensures
            Self::spec_from_data(name, data@, res),
    {
        if data.len() == 14 {
            match BufferedReportControlBlock::from_data(name, data) {
                Ok(rcb) => Ok(ReportControlBlock::Buffered(rcb)),
                Err(e) => Err(e),
            }
        } else if data.len() == 11 {
            match UnbufferedReportControlBlock::from_data(name, data) {
                Ok(rcb) => Ok(ReportControlBlock::Unbuffered(rcb)),
                Err(e) => Err(e),
            }
        } else {
            Err(ReportControlBlockError::InvalidDataLength { length: data.len() })
        }
    }
}

} // verus!
