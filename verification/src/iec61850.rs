//! The IEC 61850 view of MMS data: paths and names, typed values, report
//! control blocks, reports and the model of an IED.

use vstd::prelude::*;
use vstd::string::StrSliceExecFns;
use vstd::utf8::encode_utf8;
use crate::iec61850::data::Iec61850Data;
use crate::iec61850::data::Iec61850DataError;
use crate::iec61850::model::ModelError;
use crate::iec61850::rcb::ReportControlBlock;
use crate::iec61850::rcb::ReportControlBlockError;
use crate::iec61850::text::concat_str;
use crate::iec61850::text::find_char;
use crate::iec61850::text::lemma_first;
use crate::iec61850::text::lemma_split_join;
use crate::iec61850::text::spec_concat;
use crate::iec61850::text::spec_first;
use crate::iec61850::text::spec_split;
use crate::iec61850::text::spec_views;
use crate::iec61850::text::split_once;
use crate::iec61850::text::str_eq;
use crate::mms::client::MmsClientError;
use crate::mms::client::check_identifier;
use crate::mms::codec::spec_visible;

pub mod convert;
pub mod data;
pub mod model;
pub mod rcb;
pub mod report;
pub mod text;

verus! {

/// What can go wrong in the IEC 61850 client.
#[derive(Debug, Clone, PartialEq, Eq)]
#[allow(inconsistent_fields)]
pub enum Iec61850ClientError {
    /// A name holds a character that an identifier does not allow.
    ConvertToVisibleString,
    /// A path is not of the form `logical_device/name`.
    InvalidPath,
    /// The MMS client failed.
    Client { source: MmsClientError },
    /// The data is of another kind than expected.
    InvalidData,
    /// The data is empty.
    InvalidDataLength,
    /// The report control block could not be read.
    CreateReportControlBlock { source: ReportControlBlockError },
    /// Data could not be converted.
    ConvertDataToMmsData { source: Iec61850DataError },
    /// The model could not be built.
    Model { source: ModelError },
    /// Bytes are no string.
    ConvertToString,
}

impl From<MmsClientError> for Iec61850ClientError {
    fn from(error: MmsClientError) -> (res: Iec61850ClientError) {
        Iec61850ClientError::Client { source: error }
    }
}

impl vstd::std_specs::convert::FromSpecImpl<MmsClientError> for Iec61850ClientError {
    open spec fn obeys_from_spec() -> bool {
        true
    }

    open spec fn from_spec(error: MmsClientError) -> Iec61850ClientError {
        Iec61850ClientError::Client { source: error }
    }
}

/// A path to an object in an IED.
#[derive(Debug, Clone, PartialEq, Eq, Hash)]
pub enum ObjectPath {
    /// The whole path in one string: `logical_device/name`.
    FullPath(String),
    /// The logical device and the path within it.
    FromLogicalDevice { logical_device: String, path: String },
}

/// The two parts of a path of the form `logical_device/name`, if the path
/// has this form: exactly one slash.
pub open spec fn spec_split_path(path: Seq<char>) -> Option<(Seq<char>, Seq<char>)> {
    if spec_split(path, '/').len() == 2 {
        Some((spec_split(path, '/')[0], spec_split(path, '/')[1]))
    } else {
        None
    }
}

/// A path of the form `logical_device/name` is its two parts with a slash
/// between them, and neither part holds a slash.
pub proof fn lemma_split_path(path: Seq<char>)
    ensures
        match spec_split_path(path) {
            Some((device, name)) => {
                &&& path == device + seq!['/'] + name
                &&& !device.contains('/')
                &&& !name.contains('/')
                &&& device == path.take(spec_first(path, '/'))
                &&& name == path.skip(spec_first(path, '/') + 1)
            },
            None => spec_first(path, '/') == path.len() || path.skip(
                spec_first(path, '/') + 1,
            ).contains('/'),
        },
        spec_split_path(path) is Some <==> (spec_first(path, '/') < path.len() && !path.skip(
            spec_first(path, '/') + 1,
        ).contains('/')),
{
    lemma_first(path, '/');
    lemma_split_join(path, '/');
    let first = spec_first(path, '/');
    if first < path.len() {
        let rest = path.skip(first + 1);
        lemma_split_join(rest, '/');
        let parts = spec_split(path, '/');
        assert(parts == seq![path.take(first)] + spec_split(rest, '/'));
        if parts.len() == 2 {
            assert(spec_split(rest, '/').len() == 1);
            assert(parts[1] == spec_split(rest, '/')[0]);
            assert(spec_split(rest, '/')[0] == rest);
            assert(path =~= path.take(first) + seq!['/'] + rest);
        }
    }
}

/// Splits a path of the form `logical_device/name` into its two parts. A
/// path without a slash, or with more than one, is invalid.
pub fn split_path(path: &str) -> (res: Result<(&str, &str), Iec61850ClientError>)
    ensures
        match res {
            Ok((device, name)) => spec_split_path(path@) == Some((device@, name@)),
            Err(e) => spec_split_path(path@) is None && e == Iec61850ClientError::InvalidPath,
        },
{
    proof {
        lemma_split_path(path@);
    }
    match split_once(path, '/') {
        Some((device, name)) => {
            proof {
                lemma_first(name@, '/');
            }
            if find_char(name, '/') < name.unicode_len() {
                Err(Iec61850ClientError::InvalidPath)
            } else {
                Ok((device, name))
            }
        },
        None => Err(Iec61850ClientError::InvalidPath),
    }
}

impl ObjectPath {
    /// The two parts of the path.
    pub open spec fn spec_parts(self) -> Option<(Seq<char>, Seq<char>)> {
        match self {
            ObjectPath::FullPath(path) => spec_split_path(path@),
            ObjectPath::FromLogicalDevice { logical_device, path } => Some(
                (logical_device@, path@),
            ),
        }
    }

    /// The path in one string.
    pub open spec fn spec_string(self) -> Seq<char> {
        match self {
            ObjectPath::FullPath(path) => path@,
            ObjectPath::FromLogicalDevice { logical_device, path } => spec_concat(
                seq![logical_device@, "/"@, path@],
            ),
        }
    }

    /// Splits the path into the logical device and the rest. A path that
    /// was given in two parts is not looked into.
    pub fn get_split_path(&self) -> (res: Result<(&str, &str), Iec61850ClientError>)
        ensures
            match res {
                Ok((device, name)) => self.spec_parts() == Some((device@, name@)),
                Err(e) => self.spec_parts() is None && e == Iec61850ClientError::InvalidPath,
            },
    {
        match self {
            ObjectPath::FullPath(path) => split_path(path.as_str()),
            ObjectPath::FromLogicalDevice { logical_device, path } => Ok(
                (logical_device.as_str(), path.as_str()),
            ),
        }
    }

    /// The path in one string: the logical device, a slash and the rest.
    pub fn to_string(&self) -> (res: String)
        ensures
            res@ == self.spec_string(),
    {
        match self {
            ObjectPath::FullPath(path) => path.clone(),
            ObjectPath::FromLogicalDevice { logical_device, path } => {
                let parts: [&str; 3] = [logical_device.as_str(), "/", path.as_str()];
                assert(spec_views(parts@) =~= seq![logical_device@, "/"@, path@]);
                concat_str(parts.as_slice())
            },
        }
    }

    /// The path of an attribute of the object: the path, a dollar sign and
    /// the name of the attribute, in one string.
    pub fn attribute(&self, name: &str) -> (res: ObjectPath)
        ensures
            res matches ObjectPath::FullPath(path) && path@ == spec_concat(
                seq![self.spec_string(), "$"@, name@],
            ),
    {
        let whole: String = self.to_string();
        let parts: [&str; 3] = [whole.as_str(), "$", name];
        assert(spec_views(parts@) =~= seq![whole@, "$"@, name@]);
        ObjectPath::FullPath(concat_str(parts.as_slice()))
    }
}

impl From<String> for ObjectPath {
    fn from(value: String) -> (res: ObjectPath) {
        ObjectPath::FullPath(value)
    }
}

impl vstd::std_specs::convert::FromSpecImpl<String> for ObjectPath {
    open spec fn obeys_from_spec() -> bool {
        true
    }

    open spec fn from_spec(value: String) -> ObjectPath {
        ObjectPath::FullPath(value)
    }
}

impl From<(String, String)> for ObjectPath {
    fn from(value: (String, String)) -> (res: ObjectPath) {
        ObjectPath::FromLogicalDevice { logical_device: value.0, path: value.1 }
    }
}

impl vstd::std_specs::convert::FromSpecImpl<(String, String)> for ObjectPath {
    open spec fn obeys_from_spec() -> bool {
        true
    }

    open spec fn from_spec(value: (String, String)) -> ObjectPath {
        ObjectPath::FromLogicalDevice { logical_device: value.0, path: value.1 }
    }
}

/// Checks that a name may stand in an MMS identifier.
pub fn to_identifier(value: &str) -> (res: Result<(), Iec61850ClientError>)
    ensures
        res is Ok <==> spec_visible(encode_utf8(value@)),
        res is Err ==> res == Err::<(), Iec61850ClientError>(
            Iec61850ClientError::ConvertToVisibleString,
        ),
{
    match check_identifier(value) {
        Ok(()) => Ok(()),
        Err(_) => Err(Iec61850ClientError::ConvertToVisibleString),
    }
}

/// Whether a name of a named variable is that of a logical node: it holds
/// no dollar sign.
pub fn is_logical_node_name(name: &str) -> (res: bool)
    ensures
        res == !name@.contains('$'),
{
    proof {
        lemma_first(name@, '$');
    }
    find_char(name, '$') >= name.unicode_len()
}

/// Whether the parts of a name are those of a report control block: three
/// parts, the second of them `BR` or `RP`.
pub open spec fn spec_is_rcb_name(name: Seq<char>) -> bool {
    &&& spec_split(name, '$').len() == 3
    &&& (spec_split(name, '$')[1] == "BR"@ || spec_split(name, '$')[1] == "RP"@)
}

/// Whether a name of a named variable is that of a report control block:
/// `node$BR$name` or `node$RP$name`.
pub fn is_report_control_block_name(name: &str) -> (res: bool)
    ensures
        res == spec_is_rcb_name(name@),
{
    proof {
        lemma_first(name@, '$');
        lemma_split_join(name@, '$');
    }
    match split_once(name, '$') {
        None => false,
        Some((_, rest)) => {
            proof {
                lemma_first(rest@, '$');
                lemma_split_join(rest@, '$');
            }
            match split_once(rest, '$') {
                None => false,
                Some((kind, last)) => {
                    proof {
                        lemma_first(last@, '$');
                        lemma_split_join(last@, '$');
                        let parts = spec_split(name@, '$');
                        let inner = spec_split(rest@, '$');
                        assert(parts == seq![name@.take(spec_first(name@, '$'))] + inner);
                        assert(inner == seq![kind@] + spec_split(last@, '$'));
                        assert(parts[1] == inner[0]);
                    }
                    let single: bool = find_char(last, '$') >= last.unicode_len();
                    single && (str_eq(kind, "BR") || str_eq(kind, "RP"))
                },
            }
        },
    }
}

/// A string without the characters `c` at its start.
pub open spec fn spec_trim_start(text: Seq<char>, c: char) -> Seq<char>
    decreases text.len(),
{
    if text.len() > 0 && text[0] == c {
        spec_trim_start(text.drop_first(), c)
    } else {
        text
    }
}

/// Takes the characters `c` off the start of a string.
pub fn trim_start(text: &str, c: char) -> (res: &str)
    ensures
        res@ == spec_trim_start(text@, c),
{
    let n: usize = text.unicode_len();
    let mut i: usize = 0;
    assert(text@.skip(0) == text@);
    while i < n && text.get_char(i) == c
        invariant
            n == text@.len(),
            i <= n,
            spec_trim_start(text@, c) == spec_trim_start(text@.skip(i as int), c),
        decreases n - i,
    {
        assert(text@.skip(i as int)[0] == text@[i as int]);
        assert(text@.skip(i as int).drop_first() == text@.skip(i + 1));
        i = i + 1;
    }
    proof {
        if i < n {
            assert(text@.skip(i as int)[0] == text@[i as int]);
        }
        assert(text@.subrange(i as int, n as int) == text@.skip(i as int));
    }
    text.substring_char(i, n)
}

/// The name of a data set of the association, if a path names one: such a
/// path starts with `@`, and the name is what follows the leading `@`s.
pub fn association_dataset(path: &str) -> (res: Option<&str>)
    ensures
        match res {
            Some(name) => path@.len() > 0 && path@[0] == '@' && name@ == spec_trim_start(
                path@,
                '@',
            ),
            None => path@.len() == 0 || path@[0] != '@',
        },
{
    if path.unicode_len() > 0 && path.get_char(0) == '@' {
        Some(trim_start(path, '@'))
    } else {
        None
    }
}

/// Whether an entry may stand in a data set: it has the form
/// `logical_device/name`, and the logical device is the given one if one
/// is given.
pub open spec fn spec_entry_ok(logical_device: Option<Seq<char>>, entry: Seq<char>) -> bool {
    &&& spec_split_path(entry) matches Some(parts)
    &&& (logical_device matches Some(device) ==> parts.0 == device)
}

/// Checks the entries of a data set that is to be created. A data set of a
/// logical device may only hold entries of that device.
pub fn check_dataset_entries(logical_device: Option<&str>, entries: &Vec<String>) -> (res: Result<
    (),
    Iec61850ClientError,
>)
    ensures
        res is Ok <==> forall|i: int|
            0 <= i < entries@.len() ==> spec_entry_ok(
                match logical_device {
                    Some(d) => Some(d@),
                    None => None,
                },
                (#[trigger] entries@[i])@,
            ),
        res is Err ==> res == Err::<(), Iec61850ClientError>(Iec61850ClientError::InvalidPath),
{
    let ghost device: Option<Seq<char>> = match logical_device {
        Some(d) => Some(d@),
        None => None,
    };
    let mut i: usize = 0;
    while i < entries.len()
        invariant
            i <= entries@.len(),
            device == (match logical_device {
                Some(d) => Some(d@),
                None => None,
            }),
            forall|j: int| 0 <= j < i ==> spec_entry_ok(device, (#[trigger] entries@[j])@),
        decreases entries@.len() - i,
    {
        match split_path(entries[i].as_str()) {
            Ok((entry_device, _)) => {
                match logical_device {
                    Some(d) => {
                        if !str_eq(d, entry_device) {
                            return Err(Iec61850ClientError::InvalidPath);
                        }
                    },
                    None => {},
                }
            },
            Err(e) => {
                return Err(e);
            },
        }
        i = i + 1;
    }
    Ok(())
}

/// What the data that was read for a report control block gives: the
/// report control block that the values of its last structure make.
/// Nothing read is an invalid length; data that ends with something else
/// than a structure is invalid.
pub fn get_rcb(name: String, data: Vec<Iec61850Data>) -> (res: Result<
    ReportControlBlock,
    Iec61850ClientError,
>)
    ensures
        match res {
            Ok(rcb) => data@.len() > 0 && (data@.last() matches Iec61850Data::Structure(values)
                && ReportControlBlock::spec_from_data(
                name,
                values@,
                Ok::<ReportControlBlock, ReportControlBlockError>(rcb),
            )),
            Err(Iec61850ClientError::InvalidDataLength) => data@.len() == 0,
            Err(Iec61850ClientError::InvalidData) => data@.len() > 0 && !(data@.last() is Structure),
            Err(Iec61850ClientError::CreateReportControlBlock { source }) => data@.len() > 0 && (
            data@.last() matches Iec61850Data::Structure(values)
                && ReportControlBlock::spec_from_data(
                name,
                values@,
                Err::<ReportControlBlock, ReportControlBlockError>(source),
            )),
            Err(_) => false,
        },
{
    let mut data = data;
    match data.pop() {
        None => Err(Iec61850ClientError::InvalidDataLength),
        Some(Iec61850Data::Structure(values)) => match ReportControlBlock::from_data(name, values) {
            Ok(rcb) => Ok(rcb),
            Err(e) => Err(Iec61850ClientError::CreateReportControlBlock { source: e }),
        },
        Some(_) => Err(Iec61850ClientError::InvalidData),
    }
}

} // verus!
