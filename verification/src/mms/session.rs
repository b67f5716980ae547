//! ISO 8327 session layer, kernel and duplex functional units: SPDU framing
//! and the connect exchange.
//!
//! An SPDU is one type byte, one length byte and a flat run of parameters,
//! each of them a tag byte, a length byte and a value. As in the transport
//! module every structure has a ghost model, a spec function for its bytes
//! and a spec function for what bytes parse to.

use vstd::prelude::*;
use crate::mms::cotp::CotpError;
use crate::mms::cotp::append_bytes;
use crate::mms::cotp::copy_range;

verus! {

/// The longest session selector.
pub const MAX_SESSION_SELECTOR_SIZE: usize = 16;

/// What can be wrong with an SPDU or with the connect exchange.
#[derive(Debug, Clone, Copy, PartialEq, Eq, Structural)]
#[allow(inconsistent_fields)]
pub enum SessionError {
    /// The calling session selector is missing.
    MissingCallingSessionSelector,
    /// The called session selector is missing.
    MissingCalledSessionSelector,
    /// The session user requirements are missing.
    MissingSessionRequirement,
    /// The connect/accept item is missing.
    MissingProtocolOptions,
    /// The user data parameter is missing.
    MissingUserData,
    /// The transport layer failed.
    CotpLayer { source: CotpError },
    /// The peer answered with another SPDU than the exchange allows.
    InvalidCotpResponse,
    /// A parameter of the connect/accept item with an unknown tag.
    InvalidParameter { value: u8 },
    /// A session requirement word that names no single functional unit.
    InvalidSessionRequirement { value: u16 },
    /// An unknown SPDU type.
    InvalidSpduType { value: u8 },
    /// The SPDU is shorter than its fixed part.
    MessageTooShort,
    /// The length byte does not count the bytes that follow it.
    InvalidLength,
    /// A DATA SPDU without the fixed four-byte prelude.
    InvalidDataSpdu,
    /// The peer refused the connection.
    ConnectionRefused,
    /// A parameter header is cut short.
    UnexpectedEndOfMessage,
    /// A parameter of fixed length has another length.
    InvalidParameterLength,
    /// A session selector of more than 16 bytes.
    InvalidSelectorSize,
    /// No user data in the message.
    NoUserData,
    /// Another protocol version than 2.
    InvalidVersion { value: u8 },
    /// The connect/accept item lacks protocol options or version.
    MissingRequiredParameters,
    /// The payload does not fit the SPDU.
    PayloadTooLarge,
    /// A parameter value is cut short.
    NotEnoughBytes,
}

impl From<CotpError> for SessionError {
    fn from(error: CotpError) -> (res: SessionError) {
        SessionError::CotpLayer { source: error }
    }
}

impl vstd::std_specs::convert::FromSpecImpl<CotpError> for SessionError {
    open spec fn obeys_from_spec() -> bool {
        true
    }

    open spec fn from_spec(error: CotpError) -> SessionError {
        SessionError::CotpLayer { source: error }
    }
}

/// Lifts a parse result to the level of views.
pub open spec fn parsed<T: View>(res: Result<T, SessionError>) -> Result<T::V, SessionError> {
    match res {
        Ok(t) => Ok(t@),
        Err(e) => Err(e),
    }
}

/// A functional unit of the session layer, as one bit of the requirements
/// word.
#[derive(Debug, Clone, Copy, PartialEq, Eq, Structural)]
pub enum SessionRequirement {
    /// Half-duplex functional unit.
    HalfDuplex,
    /// Duplex functional unit.
    Duplex,
    /// Expedited data functional unit.
    ExpeditedData,
    /// Minor synchronization functional unit.
    MinorSync,
    /// Major synchronization functional unit.
    MajorSync,
    /// Resynchronize functional unit.
    Resync,
    /// Activity management functional unit.
    ActivityMgmt,
    /// Negotiated release functional unit.
    NegotiatedRelease,
}

impl SessionRequirement {
    /// The requirements word that stands for this functional unit.
    pub open spec fn spec_code(self) -> u16 {
        match self {
            SessionRequirement::HalfDuplex => 0x0001,
            SessionRequirement::Duplex => 0x0002,
            SessionRequirement::ExpeditedData => 0x0004,
            SessionRequirement::MinorSync => 0x0008,
            SessionRequirement::MajorSync => 0x0010,
            SessionRequirement::Resync => 0x0020,
            SessionRequirement::ActivityMgmt => 0x0080,
            SessionRequirement::NegotiatedRelease => 0x0100,
        }
    }

    /// The functional unit that a requirements word stands for, if it
    /// stands for exactly one.
    pub open spec fn spec_from_code(value: u16) -> Result<SessionRequirement, SessionError> {
        if value == 0x0001 {
            Ok(SessionRequirement::HalfDuplex)
        } else if value == 0x0002 {
            Ok(SessionRequirement::Duplex)
        } else if value == 0x0004 {
            Ok(SessionRequirement::ExpeditedData)
        } else if value == 0x0008 {
            Ok(SessionRequirement::MinorSync)
        } else if value == 0x0010 {
            Ok(SessionRequirement::MajorSync)
        } else if value == 0x0020 {
            Ok(SessionRequirement::Resync)
        } else if value == 0x0080 {
            Ok(SessionRequirement::ActivityMgmt)
        } else if value == 0x0100 {
            Ok(SessionRequirement::NegotiatedRelease)
        } else {
            Err(SessionError::InvalidSessionRequirement { value })
        }
    }

    /// The two bytes of the requirements word, low byte first.
    pub open spec fn spec_le_bytes(self) -> Seq<u8> {
        seq![(self.spec_code() % 256) as u8, (self.spec_code() / 256) as u8]
    }

    /// Encodes the functional unit as its requirements word.
    pub fn code(self) -> (res: u16)
        ensures
            res == self.spec_code(),
            Self::spec_from_code(res) == Ok::<SessionRequirement, SessionError>(self),
    {
        match self {
            SessionRequirement::HalfDuplex => 0x0001,
            SessionRequirement::Duplex => 0x0002,
            SessionRequirement::ExpeditedData => 0x0004,
            SessionRequirement::MinorSync => 0x0008,
            SessionRequirement::MajorSync => 0x0010,
            SessionRequirement::Resync => 0x0020,
            SessionRequirement::ActivityMgmt => 0x0080,
            SessionRequirement::NegotiatedRelease => 0x0100,
        }
    }
}

impl TryFrom<u16> for SessionRequirement {
    type Error = SessionError;

    fn try_from(value: u16) -> (res: Result<SessionRequirement, SessionError>) {
        if value == 0x0001 {
            Ok(SessionRequirement::HalfDuplex)
        } else if value == 0x0002 {
            Ok(SessionRequirement::Duplex)
        } else if value == 0x0004 {
            Ok(SessionRequirement::ExpeditedData)
        } else if value == 0x0008 {
            Ok(SessionRequirement::MinorSync)
        } else if value == 0x0010 {
            Ok(SessionRequirement::MajorSync)
        } else if value == 0x0020 {
            Ok(SessionRequirement::Resync)
        } else if value == 0x0080 {
            Ok(SessionRequirement::ActivityMgmt)
        } else if value == 0x0100 {
            Ok(SessionRequirement::NegotiatedRelease)
        } else {
            Err(SessionError::InvalidSessionRequirement { value })
        }
    }
}

impl vstd::std_specs::convert::TryFromSpecImpl<u16> for SessionRequirement {
    open spec fn obeys_try_from_spec() -> bool {
        true
    }

    open spec fn try_from_spec(value: u16) -> Result<SessionRequirement, SessionError> {
        SessionRequirement::spec_from_code(value)
    }
}

/// A session selector: up to 16 bytes that address a session user.
#[derive(Debug, Clone, PartialEq, Eq)]
pub struct SSelector {
    /// The selector, verbatim.
    pub value: Vec<u8>,
}

impl View for SSelector {
    type V = Seq<u8>;

    open spec fn view(&self) -> Seq<u8> {
        self.value@
    }
}

impl SSelector {
    /// A selector as a parameter value with its length byte in front (the
    /// length modulo 256).
    pub open spec fn spec_bytes(value: Seq<u8>) -> Seq<u8> {
        seq![(value.len() % 256) as u8] + value
    }

    /// What bytes give as a selector: themselves, if they are at most 16.
    pub open spec fn spec_parse(bytes: Seq<u8>) -> Result<Seq<u8>, SessionError> {
        if bytes.len() > MAX_SESSION_SELECTOR_SIZE {
            Err(SessionError::InvalidSelectorSize)
        } else {
            Ok(bytes)
        }
    }

    /// What the value of a selector parameter gives: a length byte, which
    /// must count the bytes that follow it, and those bytes as the selector.
    pub open spec fn spec_parse_parameter(value: Seq<u8>) -> Result<Seq<u8>, SessionError> {
        if value.len() == 0 || value[0] as int != value.len() - 1 {
            Err(SessionError::InvalidParameterLength)
        } else {
            Self::spec_parse(value.subrange(1, value.len() as int))
        }
    }

    /// Takes the bytes as a selector. More than 16 bytes are rejected.
    pub fn from_bytes(bytes: &[u8]) -> (res: Result<Self, SessionError>)
        ensures
            parsed(res) == Self::spec_parse(bytes@),
            res is Ok <==> bytes@.len() <= 16,
    {
        if bytes.len() > MAX_SESSION_SELECTOR_SIZE {
            return Err(SessionError::InvalidSelectorSize);
        }
        let value: Vec<u8> = copy_range(bytes, 0, bytes.len());
        assert(value@ == bytes@);
        Ok(Self { value })
    }

    /// Reads the value of a selector parameter: the selector with its length
    /// byte in front. A value whose first byte does not count the rest is
    /// rejected, and so is a selector of more than 16 bytes.
    pub fn from_parameter(value: &[u8]) -> (res: Result<Self, SessionError>)
        ensures
            parsed(res) == Self::spec_parse_parameter(value@),
    {
        if value.len() == 0 {
            return Err(SessionError::InvalidParameterLength);
        }
        if value[0] as usize != value.len() - 1 {
            return Err(SessionError::InvalidParameterLength);
        }
        Self::from_bytes(vstd::slice::slice_subrange(value, 1, value.len()))
    }

    /// Encodes the selector with its length byte in front.
    pub fn to_bytes(&self) -> (res: Vec<u8>)
        ensures
            res@ == Self::spec_bytes(self@),
    {
        let mut buffer: Vec<u8> = Vec::new();
        buffer.push((self.value.len() % 256) as u8);
        append_bytes(&mut buffer, self.value.as_slice());
        buffer
    }

    /// A copy of the selector.
    pub fn duplicate(&self) -> (res: Self)
        ensures
            res@ == self@,
    {
        let value: Vec<u8> = copy_range(self.value.as_slice(), 0, self.value.len());
        assert(value@ == self.value@);
        Self { value }
    }
}

/// The view of an optional selector.
pub open spec fn selector_view(selector: Option<SSelector>) -> Option<Seq<u8>> {
    match selector {
        Some(s) => Some(s@),
        None => None,
    }
}

/// The type byte of an SPDU.
#[derive(Debug, Clone, Copy, PartialEq, Eq, Structural)]
pub enum SpduType {
    /// GIVE TOKENS, which a DATA SPDU follows.
    GiveTokenData,
    /// NOT FINISHED.
    NotFinished,
    /// FINISH.
    Finish,
    /// DISCONNECT.
    Disconnect,
    /// REFUSE.
    Refuse,
    /// CONNECT.
    Connect,
    /// ACCEPT.
    Accept,
    /// ABORT.
    Abort,
    /// Any byte that names no supported SPDU.
    Invalid,
}

impl SpduType {
    /// The type byte that stands for this SPDU type.
    pub open spec fn spec_code(self) -> u8 {
        match self {
            SpduType::GiveTokenData => 0x01,
            SpduType::NotFinished => 0x08,
            SpduType::Finish => 0x09,
            SpduType::Disconnect => 0x0A,
            SpduType::Refuse => 0x0C,
            SpduType::Connect => 0x0D,
            SpduType::Accept => 0x0E,
            SpduType::Abort => 0x19,
            SpduType::Invalid => 0xFF,
        }
    }

    /// The SPDU type that a type byte stands for.
    pub open spec fn spec_from_code(value: u8) -> SpduType {
        if value == 0x01 {
            SpduType::GiveTokenData
        } else if value == 0x08 {
            SpduType::NotFinished
        } else if value == 0x09 {
            SpduType::Finish
        } else if value == 0x0A {
            SpduType::Disconnect
        } else if value == 0x0C {
            SpduType::Refuse
        } else if value == 0x0D {
            SpduType::Connect
        } else if value == 0x0E {
            SpduType::Accept
        } else if value == 0x19 {
            SpduType::Abort
        } else {
            SpduType::Invalid
        }
    }

    /// Encodes the type as its byte.
    pub fn code(self) -> (res: u8)
        ensures
            res == self.spec_code(),
    {
        match self {
            SpduType::GiveTokenData => 0x01,
            SpduType::NotFinished => 0x08,
            SpduType::Finish => 0x09,
            SpduType::Disconnect => 0x0A,
            SpduType::Refuse => 0x0C,
            SpduType::Connect => 0x0D,
            SpduType::Accept => 0x0E,
            SpduType::Abort => 0x19,
            SpduType::Invalid => 0xFF,
        }
    }
}

impl From<u8> for SpduType {
    fn from(value: u8) -> (res: SpduType) {
        if value == 0x01 {
            SpduType::GiveTokenData
        } else if value == 0x08 {
            SpduType::NotFinished
        } else if value == 0x09 {
            SpduType::Finish
        } else if value == 0x0A {
            SpduType::Disconnect
        } else if value == 0x0C {
            SpduType::Refuse
        } else if value == 0x0D {
            SpduType::Connect
        } else if value == 0x0E {
            SpduType::Accept
        } else if value == 0x19 {
            SpduType::Abort
        } else {
            SpduType::Invalid
        }
    }
}

impl vstd::std_specs::convert::FromSpecImpl<u8> for SpduType {
    open spec fn obeys_from_spec() -> bool {
        true
    }

    open spec fn from_spec(value: u8) -> SpduType {
        SpduType::spec_from_code(value)
    }
}

/// Tag of the connection identifier parameter group.
pub const PGI_CONNECTION_IDENTIFIER: u8 = 0x01;

/// Tag of the connect/accept item parameter group.
pub const PGI_CONNECT_ACCEPT_ITEM: u8 = 0x05;

/// Tag of the transport disconnect parameter.
pub const PGI_TRANSPORT_DISCONNECT: u8 = 0x11;

/// Tag of the session user requirements parameter.
pub const PGI_SESSION_USER_REQUIREMENTS: u8 = 0x14;

/// Tag of the calling session selector parameter.
pub const PGI_CALLING_SESSION_SELECTOR: u8 = 0x33;

/// Tag of the called session selector parameter.
pub const PGI_CALLED_SESSION_SELECTOR: u8 = 0x34;

/// Tag of the user data parameter group.
pub const PGI_USER_DATA: u8 = 0xC1;

/// Tag of the protocol options parameter.
pub const PI_PROTOCOL_OPTIONS: u8 = 0x13;

/// Tag of the version number parameter.
pub const PI_VERSION_NUMBER: u8 = 0x16;

/// Tag of the reason code parameter.
pub const PI_REASON_CODE: u8 = 0x32;

/// The protocol version that this layer speaks.
pub const SESSION_VERSION: u8 = 2;

/// Whether a tag names a parameter that may stand in a connect/accept item
/// and is passed over: TSDU maximum size, the serial numbers, the token
/// setting item and the reason code.
pub open spec fn spec_pi_ignored(tag: u8) -> bool {
    tag == 0x15 || tag == 0x17 || tag == 0x1A || tag == 0x32 || tag == 0x37 || tag == 0x38 || tag
        == 0x39 || tag == 0x3A
}

/// Whether a tag names a parameter that is passed over in a connect/accept
/// item.
pub fn pi_ignored(tag: u8) -> (res: bool)
    ensures
        res == spec_pi_ignored(tag),
{
    tag == 0x15 || tag == 0x17 || tag == 0x1A || tag == 0x32 || tag == 0x37 || tag == 0x38 || tag
        == 0x39 || tag == 0x3A
}

/// What the parameters of a connect/accept item have given so far.
pub struct ItemState {
    /// The protocol options, zero until the parameter is seen.
    pub options: u8,
    /// Whether the protocol options were seen.
    pub has_options: bool,
    /// Whether the version number was seen.
    pub has_version: bool,
}

/// What the value of a connect/accept item gives from `offset` on: the
/// protocol options, once both they and version 2 were seen. Parameters
/// with an ignored tag are passed over, any other tag is an error.
pub open spec fn spec_parse_item_from(bytes: Seq<u8>, offset: int, state: ItemState) -> Result<
    u8,
    SessionError,
>
    decreases bytes.len() - offset,
{
    if offset < 0 || offset >= bytes.len() {
        if state.has_options && state.has_version {
            Ok(state.options)
        } else {
            Err(SessionError::MissingRequiredParameters)
        }
    } else if offset + 1 >= bytes.len() {
        Err(SessionError::UnexpectedEndOfMessage)
    } else {
        let tag = bytes[offset];
        let len = bytes[offset + 1];
        if tag == PI_PROTOCOL_OPTIONS {
            if len != 1 {
                Err(SessionError::InvalidParameterLength)
            } else if offset + 2 >= bytes.len() {
                Err(SessionError::NotEnoughBytes)
            } else {
                spec_parse_item_from(
                    bytes,
                    offset + 3,
                    ItemState {
                        options: bytes[offset + 2],
                        has_options: true,
                        has_version: state.has_version,
                    },
                )
            }
        } else if tag == PI_VERSION_NUMBER {
            if len != 1 {
                Err(SessionError::InvalidParameterLength)
            } else if offset + 2 >= bytes.len() {
                Err(SessionError::NotEnoughBytes)
            } else if bytes[offset + 2] != SESSION_VERSION {
                Err(SessionError::InvalidVersion { value: bytes[offset + 2] })
            } else {
                spec_parse_item_from(
                    bytes,
                    offset + 3,
                    ItemState {
                        options: state.options,
                        has_options: state.has_options,
                        has_version: true,
                    },
                )
            }
        } else if spec_pi_ignored(tag) {
            if offset + 2 + len >= bytes.len() {
                spec_parse_item_from(bytes, bytes.len() as int, state)
            } else {
                spec_parse_item_from(bytes, offset + 2 + len, state)
            }
        } else {
            Err(SessionError::InvalidParameter { value: 0xFF })
        }
    }
}

/// What the value of a connect/accept item gives: its protocol options.
pub open spec fn spec_parse_item(bytes: Seq<u8>) -> Result<u8, SessionError> {
    spec_parse_item_from(
        bytes,
        0,
        ItemState { options: 0, has_options: false, has_version: false },
    )
}

/// The connect/accept item with the given protocol options and version 2.
pub open spec fn spec_item_bytes(options: u8) -> Seq<u8> {
    seq![
        PGI_CONNECT_ACCEPT_ITEM,
        6u8,
        PI_PROTOCOL_OPTIONS,
        1u8,
        options,
        PI_VERSION_NUMBER,
        1u8,
        SESSION_VERSION,
    ]
}

/// The session user requirements parameter.
pub open spec fn spec_requirement_bytes(requirement: SessionRequirement) -> Seq<u8> {
    seq![PGI_SESSION_USER_REQUIREMENTS, 2u8] + requirement.spec_le_bytes()
}

/// A selector parameter: the tag, the length of the value (modulo 256) and,
/// as the value, the selector with its own length byte in front. Without a
/// selector there is no parameter.
pub open spec fn spec_selector_bytes(tag: u8, selector: Option<Seq<u8>>) -> Seq<u8> {
    match selector {
        Some(value) => seq![tag, ((value.len() + 1) % 256) as u8] + SSelector::spec_bytes(value),
        None => Seq::empty(),
    }
}

/// The user data parameter: tag, length (modulo 256) and the data.
pub open spec fn spec_user_data_bytes(data: Seq<u8>) -> Seq<u8> {
    seq![PGI_USER_DATA, (data.len() % 256) as u8] + data
}

/// Parses the value of a connect/accept item and gives its protocol
/// options. Both the protocol options and version 2 must be there.
pub fn parse_connect_accept_item(bytes: &[u8]) -> (res: Result<u8, SessionError>)
    ensures
        res == spec_parse_item(bytes@),
{
    let n: usize = bytes.len();
    let mut offset: usize = 0;
    let mut has_protocol_options: bool = false;
    let mut has_protocol_version: bool = false;
    let mut protocol_options: u8 = 0;
    while offset < n
        invariant
            n == bytes@.len(),
            offset <= n,
            spec_parse_item(bytes@) == spec_parse_item_from(
                bytes@,
                offset as int,
                ItemState {
                    options: protocol_options,
                    has_options: has_protocol_options,
                    has_version: has_protocol_version,
                },
            ),
        decreases n - offset,
    {
        if n - offset < 2 {
            return Err(SessionError::UnexpectedEndOfMessage);
        }
        let tag: u8 = bytes[offset];
        let param_len: usize = bytes[offset + 1] as usize;
        if tag == PI_PROTOCOL_OPTIONS {
            if param_len != 1 {
                return Err(SessionError::InvalidParameterLength);
            }
            if n - offset < 3 {
                return Err(SessionError::NotEnoughBytes);
            }
            protocol_options = bytes[offset + 2];
            has_protocol_options = true;
            offset = offset + 3;
        } else if tag == PI_VERSION_NUMBER {
            if param_len != 1 {
                return Err(SessionError::InvalidParameterLength);
            }
            if n - offset < 3 {
                return Err(SessionError::NotEnoughBytes);
            }
            let version: u8 = bytes[offset + 2];
            if version != SESSION_VERSION {
                return Err(SessionError::InvalidVersion { value: version });
            }
            has_protocol_version = true;
            offset = offset + 3;
        } else if pi_ignored(tag) {
            if n - offset - 2 <= param_len {
                offset = n;
            } else {
                offset = offset + 2 + param_len;
            }
        } else {
            return Err(SessionError::InvalidParameter { value: 0xFF });
        }
    }
    if has_protocol_options && has_protocol_version {
        Ok(protocol_options)
    } else {
        Err(SessionError::MissingRequiredParameters)
    }
}

/// The item that the encoder writes parses to its protocol options.
pub proof fn lemma_item_roundtrip(options: u8)
    ensures
        spec_parse_item(spec_item_bytes(options).skip(2)) == Ok::<u8, SessionError>(options),
{
    let value = spec_item_bytes(options).skip(2);
    let start = ItemState { options: 0, has_options: false, has_version: false };
    let middle = ItemState { options, has_options: true, has_version: false };
    let end = ItemState { options, has_options: true, has_version: true };
    assert(value.len() == 6);
    assert(value[0] == PI_PROTOCOL_OPTIONS && value[1] == 1 && value[2] == options);
    assert(value[3] == PI_VERSION_NUMBER && value[4] == 1 && value[5] == SESSION_VERSION);
    assert(spec_parse_item_from(value, 6, end) == Ok::<u8, SessionError>(options));
    assert(spec_parse_item_from(value, 3, middle) == spec_parse_item_from(value, 6, end));
    assert(spec_parse_item_from(value, 0, start) == spec_parse_item_from(value, 3, middle));
}

/// The CONNECT SPDU.
#[derive(Debug, Clone, PartialEq, Eq)]
pub struct ConnectSpdu {
    /// The calling session selector.
    pub calling_session_selector: Option<SSelector>,
    /// The called session selector.
    pub called_session_selector: Option<SSelector>,
    /// The functional unit that the session user asks for.
    pub session_requirement: SessionRequirement,
    /// The protocol options.
    pub protocol_options: u8,
    /// The user data.
    pub data: Vec<u8>,
}

/// The ghost model of a CONNECT SPDU.
pub struct ConnectSpduView {
    /// The calling session selector.
    pub calling_session_selector: Option<Seq<u8>>,
    /// The called session selector.
    pub called_session_selector: Option<Seq<u8>>,
    /// The functional unit that the session user asks for.
    pub session_requirement: SessionRequirement,
    /// The protocol options.
    pub protocol_options: u8,
    /// The user data.
    pub data: Seq<u8>,
}

impl View for ConnectSpdu {
    type V = ConnectSpduView;

    open spec fn view(&self) -> ConnectSpduView {
        ConnectSpduView {
            calling_session_selector: selector_view(self.calling_session_selector),
            called_session_selector: selector_view(self.called_session_selector),
            session_requirement: self.session_requirement,
            protocol_options: self.protocol_options,
            data: self.data@,
        }
    }
}

/// What the parameters of a CONNECT or ACCEPT SPDU have given so far.
pub struct ParamState {
    /// The calling session selector.
    pub calling: Option<Seq<u8>>,
    /// The called session selector.
    pub called: Option<Seq<u8>>,
    /// The session user requirements.
    pub requirement: Option<SessionRequirement>,
    /// The protocol options of the connect/accept item.
    pub options: Option<u8>,
    /// The user data.
    pub data: Option<Seq<u8>>,
}

impl ParamState {
    /// Nothing seen yet.
    pub open spec fn empty() -> ParamState {
        ParamState { calling: None, called: None, requirement: None, options: None, data: None }
    }

    /// The SPDU that the parameters give. The requirements, the
    /// connect/accept item and the user data must have been seen; the first
    /// of them that is missing, in this order, names the error.
    pub open spec fn finish(self) -> Result<ConnectSpduView, SessionError> {
        if self.requirement is None {
            Err(SessionError::MissingSessionRequirement)
        } else if self.options is None {
            Err(SessionError::MissingProtocolOptions)
        } else if self.data is None {
            Err(SessionError::MissingUserData)
        } else {
            Ok(
                ConnectSpduView {
                    calling_session_selector: self.calling,
                    called_session_selector: self.called,
                    session_requirement: self.requirement->0,
                    protocol_options: self.options->0,
                    data: self.data->0,
                },
            )
        }
    }
}

/// The offset of the next parameter, never beyond the end of the bytes.
pub open spec fn spec_clamp(end: int, len: nat) -> int {
    if end > len {
        len as int
    } else {
        end
    }
}

/// What the parameters of a CONNECT or ACCEPT SPDU give from `offset` on.
/// A later parameter replaces an earlier one with the same tag; the user
/// data parameter ends the SPDU; parameters with other tags than the five
/// that are read here are passed over.
pub open spec fn spec_parse_params(bytes: Seq<u8>, offset: int, state: ParamState) -> Result<
    ParamState,
    SessionError,
>
    decreases bytes.len() - offset,
{
    if offset < 0 || offset >= bytes.len() {
        Ok(state)
    } else if offset + 1 >= bytes.len() {
        Err(SessionError::UnexpectedEndOfMessage)
    } else {
        let tag = bytes[offset];
        let start = offset + 2;
        let end = start + bytes[offset + 1];
        if tag == PGI_CONNECT_ACCEPT_ITEM {
            if end > bytes.len() {
                Err(SessionError::NotEnoughBytes)
            } else {
                match spec_parse_item(bytes.subrange(start, end)) {
                    Ok(options) => spec_parse_params(
                        bytes,
                        end,
                        ParamState { options: Some(options), ..state },
                    ),
                    Err(e) => Err(e),
                }
            }
        } else if tag == PGI_SESSION_USER_REQUIREMENTS {
            if end - start != 2 {
                Err(SessionError::InvalidParameterLength)
            } else if end > bytes.len() {
                Err(SessionError::NotEnoughBytes)
            } else {
                match SessionRequirement::spec_from_code(
                    (bytes[start] as int + 256 * bytes[start + 1] as int) as u16,
                ) {
                    Ok(requirement) => spec_parse_params(
                        bytes,
                        end,
                        ParamState { requirement: Some(requirement), ..state },
                    ),
                    Err(e) => Err(e),
                }
            }
        } else if tag == PGI_CALLING_SESSION_SELECTOR {
            if end > bytes.len() {
                Err(SessionError::NotEnoughBytes)
            } else {
                match SSelector::spec_parse_parameter(bytes.subrange(start, end)) {
                    Ok(selector) => spec_parse_params(
                        bytes,
                        end,
                        ParamState { calling: Some(selector), ..state },
                    ),
                    Err(e) => Err(e),
                }
            }
        } else if tag == PGI_CALLED_SESSION_SELECTOR {
            if end > bytes.len() {
                Err(SessionError::NotEnoughBytes)
            } else {
                match SSelector::spec_parse_parameter(bytes.subrange(start, end)) {
                    Ok(selector) => spec_parse_params(
                        bytes,
                        end,
                        ParamState { called: Some(selector), ..state },
                    ),
                    Err(e) => Err(e),
                }
            }
        } else if tag == PGI_USER_DATA {
            if end > bytes.len() {
                Err(SessionError::NotEnoughBytes)
            } else {
                Ok(ParamState { data: Some(bytes.subrange(start, end)), ..state })
            }
        } else {
            spec_parse_params(bytes, spec_clamp(end, bytes.len()), state)
        }
    }
}

impl ConnectSpduView {
    /// The parameters of the SPDU as they go on the wire: the
    /// connect/accept item with protocol options 0 and version 2, the
    /// requirements, the selectors that are there, and the user data.
    pub open spec fn body(self) -> Seq<u8> {
        spec_item_bytes(0) + spec_requirement_bytes(self.session_requirement)
            + spec_selector_bytes(PGI_CALLING_SESSION_SELECTOR, self.calling_session_selector)
            + spec_selector_bytes(PGI_CALLED_SESSION_SELECTOR, self.called_session_selector)
            + spec_user_data_bytes(self.data)
    }

    /// The SPDU as it goes on the wire: the type, the length of the
    /// parameters (modulo 256) and the parameters.
    pub open spec fn bytes(self) -> Seq<u8> {
        seq![0x0Du8, (self.body().len() % 256) as u8] + self.body()
    }

    /// A CONNECT SPDU is well formed when the parser gives it back from its
    /// own bytes: protocol options 0, selectors of at most 16 bytes, and
    /// user data whose length fits one byte.
    pub open spec fn wf(self) -> bool {
        &&& self.protocol_options == 0
        &&& self.data.len() <= 255
        &&& (self.calling_session_selector matches Some(s) ==> s.len() <= 16)
        &&& (self.called_session_selector matches Some(s) ==> s.len() <= 16)
    }
}

/// The SPDU that the parameters seen so far give.
fn finish_connect(
    calling: Option<SSelector>,
    called: Option<SSelector>,
    requirement: Option<SessionRequirement>,
    options: Option<u8>,
    data: Option<Vec<u8>>,
) -> (res: Result<ConnectSpdu, SessionError>)
    ensures
        parsed(res) == (ParamState {
            calling: selector_view(calling),
            called: selector_view(called),
            requirement,
            options,
            data: match data {
                Some(d) => Some(d@),
                None => None,
            },
        }).finish(),
{
    let session_requirement: SessionRequirement = match requirement {
        Some(r) => r,
        None => {
            return Err(SessionError::MissingSessionRequirement);
        },
    };
    let protocol_options: u8 = match options {
        Some(o) => o,
        None => {
            return Err(SessionError::MissingProtocolOptions);
        },
    };
    match data {
        Some(data) => Ok(
            ConnectSpdu {
                calling_session_selector: calling,
                called_session_selector: called,
                session_requirement,
                protocol_options,
                data,
            },
        ),
        None => Err(SessionError::MissingUserData),
    }
}

impl ConnectSpdu {
    /// What a byte string parses to as a CONNECT SPDU. The type and length
    /// bytes are not looked at; the parameters start at the third byte.
    pub open spec fn spec_parse(bytes: Seq<u8>) -> Result<ConnectSpduView, SessionError> {
        match spec_parse_params(bytes, 2, ParamState::empty()) {
            Ok(state) => state.finish(),
            Err(e) => Err(e),
        }
    }

    /// Creates a CONNECT SPDU with both selectors and protocol options 0.
    pub fn new(
        calling: SSelector,
        called: SSelector,
        requirement: SessionRequirement,
        data: Vec<u8>,
    ) -> (res: Self)
        ensures
            res.calling_session_selector == Some(calling),
            res.called_session_selector == Some(called),
            res.session_requirement == requirement,
            res.protocol_options == 0,
            res.data == data,
    {
        Self {
            calling_session_selector: Some(calling),
            called_session_selector: Some(called),
            session_requirement: requirement,
            protocol_options: 0,
            data,
        }
    }

    /// Parses a CONNECT SPDU.
    pub fn from_bytes(bytes: &[u8]) -> (res: Result<Self, SessionError>)
        ensures
            parsed(res) == Self::spec_parse(bytes@),
    {
        let n: usize = bytes.len();
        let mut offset: usize = 2;
        let mut called_session_selector: Option<SSelector> = None;
        let mut calling_session_selector: Option<SSelector> = None;
        let mut session_requirement: Option<SessionRequirement> = None;
        let mut protocol_options: Option<u8> = None;
        while offset < n
            invariant
                n == bytes@.len(),
                spec_parse_params(bytes@, 2, ParamState::empty()) == spec_parse_params(
                    bytes@,
                    offset as int,
                    ParamState {
                        calling: selector_view(calling_session_selector),
                        called: selector_view(called_session_selector),
                        requirement: session_requirement,
                        options: protocol_options,
                        data: None,
                    },
                ),
            decreases n - offset,
        {
            if n - offset < 2 {
                return Err(SessionError::UnexpectedEndOfMessage);
            }
            let tag: u8 = bytes[offset];
            let param_len: usize = bytes[offset + 1] as usize;
            let start: usize = offset + 2;
            let available: usize = n - start;
            if tag == PGI_CONNECT_ACCEPT_ITEM {
                if available < param_len {
                    return Err(SessionError::NotEnoughBytes);
                }
                let item = vstd::slice::slice_subrange(bytes, start, start + param_len);
                match parse_connect_accept_item(item) {
                    Ok(options) => {
                        protocol_options = Some(options);
                    },
                    Err(e) => {
                        return Err(e);
                    },
                }
                offset = start + param_len;
            } else if tag == PGI_SESSION_USER_REQUIREMENTS {
                if param_len != 2 {
                    return Err(SessionError::InvalidParameterLength);
                }
                if available < 2 {
                    return Err(SessionError::NotEnoughBytes);
                }
                let word: u16 = bytes[start] as u16 + 256 * (bytes[start + 1] as u16);
                match SessionRequirement::try_from(word) {
                    Ok(requirement) => {
                        session_requirement = Some(requirement);
                    },
                    Err(e) => {
                        return Err(e);
                    },
                }
                offset = start + 2;
            } else if tag == PGI_CALLING_SESSION_SELECTOR {
                if available < param_len {
                    return Err(SessionError::NotEnoughBytes);
                }
                let value = vstd::slice::slice_subrange(bytes, start, start + param_len);
                match SSelector::from_parameter(value) {
                    Ok(selector) => {
                        calling_session_selector = Some(selector);
                    },
                    Err(e) => {
                        return Err(e);
                    },
                }
                offset = start + param_len;
            } else if tag == PGI_CALLED_SESSION_SELECTOR {
                if available < param_len {
                    return Err(SessionError::NotEnoughBytes);
                }
                let value = vstd::slice::slice_subrange(bytes, start, start + param_len);
                match SSelector::from_parameter(value) {
                    Ok(selector) => {
                        called_session_selector = Some(selector);
                    },
                    Err(e) => {
                        return Err(e);
                    },
                }
                offset = start + param_len;
            } else if tag == PGI_USER_DATA {
                if available < param_len {
                    return Err(SessionError::NotEnoughBytes);
                }
                let user_data: Vec<u8> = copy_range(bytes, start, start + param_len);
                return finish_connect(
                    calling_session_selector,
                    called_session_selector,
                    session_requirement,
                    protocol_options,
                    Some(user_data),
                );
            } else {
                if available < param_len {
                    offset = n;
                } else {
                    offset = start + param_len;
                }
            }
        }
        finish_connect(
            calling_session_selector,
            called_session_selector,
            session_requirement,
            protocol_options,
            None,
        )
    }

    /// Encodes the CONNECT SPDU.
    pub fn to_bytes(&self) -> (res: Vec<u8>)
        ensures
            res@ == self@.bytes(),
    {
        let mut body: Vec<u8> = Vec::new();
        Self::encode_connect_accept_item(&mut body, 0);
        self.encode_session_requirement(&mut body);
        self.encode_calling_session_selector(&mut body);
        self.encode_called_session_selector(&mut body);
        body.push(PGI_USER_DATA);
        body.push((self.data.len() % 256) as u8);
        append_bytes(&mut body, self.data.as_slice());
        assert(body@ =~= self@.body());

        let mut buffer: Vec<u8> = Vec::new();
        buffer.push(0x0D);
        buffer.push((body.len() % 256) as u8);
        append_bytes(&mut buffer, body.as_slice());
        buffer
    }

    /// Appends the connect/accept item with the given protocol options.
    pub fn encode_connect_accept_item(buffer: &mut Vec<u8>, options: u8)
        ensures
            final(buffer)@ == old(buffer)@ + spec_item_bytes(options),
    {
        buffer.push(PGI_CONNECT_ACCEPT_ITEM);
        buffer.push(6);
        buffer.push(PI_PROTOCOL_OPTIONS);
        buffer.push(1);
        buffer.push(options);
        buffer.push(PI_VERSION_NUMBER);
        buffer.push(1);
        buffer.push(SESSION_VERSION);
        assert(buffer@ =~= old(buffer)@ + spec_item_bytes(options));
    }

    /// Appends the session user requirements.
    pub fn encode_session_requirement(&self, buffer: &mut Vec<u8>)
        ensures
            final(buffer)@ == old(buffer)@ + spec_requirement_bytes(self.session_requirement),
    {
        encode_requirement(self.session_requirement, buffer);
    }

    /// Appends the calling session selector, if there is one.
    pub fn encode_calling_session_selector(&self, buffer: &mut Vec<u8>)
        ensures
            final(buffer)@ == old(buffer)@ + spec_selector_bytes(
                PGI_CALLING_SESSION_SELECTOR,
                self@.calling_session_selector,
            ),
    {
        encode_selector(PGI_CALLING_SESSION_SELECTOR, &self.calling_session_selector, buffer);
    }

    /// Appends the called session selector, if there is one.
    pub fn encode_called_session_selector(&self, buffer: &mut Vec<u8>)
        ensures
            final(buffer)@ == old(buffer)@ + spec_selector_bytes(
                PGI_CALLED_SESSION_SELECTOR,
                self@.called_session_selector,
            ),
    {
        encode_selector(PGI_CALLED_SESSION_SELECTOR, &self.called_session_selector, buffer);
    }
}

/// Appends the session user requirements parameter.
fn encode_requirement(requirement: SessionRequirement, buffer: &mut Vec<u8>)
    ensures
        final(buffer)@ == old(buffer)@ + spec_requirement_bytes(requirement),
{
    let word: u16 = requirement.code();
    buffer.push(PGI_SESSION_USER_REQUIREMENTS);
    buffer.push(2);
    buffer.push((word % 256) as u8);
    buffer.push((word / 256) as u8);
    assert(buffer@ =~= old(buffer)@ + spec_requirement_bytes(requirement));
}

/// Appends a selector parameter with the given tag, if there is a selector.
fn encode_selector(tag: u8, selector: &Option<SSelector>, buffer: &mut Vec<u8>)
    ensures
        final(buffer)@ == old(buffer)@ + spec_selector_bytes(tag, selector_view(*selector)),
{
    match selector {
        Some(s) => {
            buffer.push(tag);
            buffer.push(((s.value.len() % 256 + 1) % 256) as u8);
            let encoded: Vec<u8> = s.to_bytes();
            append_bytes(buffer, encoded.as_slice());
            assert(buffer@ =~= old(buffer)@ + spec_selector_bytes(tag, selector_view(*selector)));
        },
        None => {
            assert(buffer@ =~= old(buffer)@ + spec_selector_bytes(tag, selector_view(*selector)));
        },
    }
}

/// A connect/accept item at `offset` is read and passed.
pub proof fn lemma_param_item(bytes: Seq<u8>, offset: int, state: ParamState, options: u8)
    requires
        0 <= offset,
        offset + 8 <= bytes.len(),
        bytes.subrange(offset, offset + 8) == spec_item_bytes(options),
    ensures
        spec_parse_params(bytes, offset, state) == spec_parse_params(
            bytes,
            offset + 8,
            ParamState { options: Some(options), ..state },
        ),
{
    let item = bytes.subrange(offset, offset + 8);
    assert(bytes[offset] == item[0]);
    assert(bytes[offset + 1] == item[1]);
    assert(bytes.subrange(offset + 2, offset + 8) == spec_item_bytes(options).skip(2));
    lemma_item_roundtrip(options);
}

/// A requirements parameter at `offset` is read and passed.
pub proof fn lemma_param_requirement(
    bytes: Seq<u8>,
    offset: int,
    state: ParamState,
    requirement: SessionRequirement,
)
    requires
        0 <= offset,
        offset + 4 <= bytes.len(),
        bytes.subrange(offset, offset + 4) == spec_requirement_bytes(requirement),
    ensures
        spec_parse_params(bytes, offset, state) == spec_parse_params(
            bytes,
            offset + 4,
            ParamState { requirement: Some(requirement), ..state },
        ),
{
    let param = bytes.subrange(offset, offset + 4);
    assert(bytes[offset] == param[0]);
    assert(bytes[offset + 1] == param[1]);
    assert(bytes[offset + 2] == param[2]);
    assert(bytes[offset + 3] == param[3]);
    let code = requirement.spec_code();
    assert((code % 256) + 256 * (code / 256) == code);
}

/// A selector parameter at `offset` is read and passed; no selector leaves
/// the offset and the state as they are.
pub proof fn lemma_param_selector(
    bytes: Seq<u8>,
    offset: int,
    state: ParamState,
    tag: u8,
    selector: Option<Seq<u8>>,
)
    requires
        tag == PGI_CALLING_SESSION_SELECTOR || tag == PGI_CALLED_SESSION_SELECTOR,
        0 <= offset,
        offset + spec_selector_bytes(tag, selector).len() <= bytes.len(),
        bytes.subrange(offset, offset + spec_selector_bytes(tag, selector).len())
            == spec_selector_bytes(tag, selector),
        selector matches Some(s) ==> s.len() <= 16,
    ensures
        spec_parse_params(bytes, offset, state) == spec_parse_params(
            bytes,
            offset + spec_selector_bytes(tag, selector).len(),
            match selector {
                Some(s) => if tag == PGI_CALLING_SESSION_SELECTOR {
                    ParamState { calling: Some(s), ..state }
                } else {
                    ParamState { called: Some(s), ..state }
                },
                None => state,
            },
        ),
{
    match selector {
        Some(s) => {
            let param = bytes.subrange(offset, offset + spec_selector_bytes(tag, selector).len());
            assert(param.len() == s.len() + 3);
            assert(bytes[offset] == param[0]);
            assert(bytes[offset + 1] == param[1]);
            let value = bytes.subrange(offset + 2, offset + 3 + s.len());
            assert(value =~= param.subrange(2, 3 + s.len() as int));
            assert(value[0] == param[2]);
            assert(value.subrange(1, value.len() as int) =~= s);
        },
        None => {},
    }
}

/// A user data parameter at `offset` that reaches to the end of the bytes
/// is read and ends the parameters.
pub proof fn lemma_param_user_data(bytes: Seq<u8>, offset: int, state: ParamState, data: Seq<u8>)
    requires
        0 <= offset,
        data.len() <= 255,
        offset + 2 + data.len() == bytes.len(),
        bytes.subrange(offset, bytes.len() as int) == spec_user_data_bytes(data),
    ensures
        spec_parse_params(bytes, offset, state) == Ok::<ParamState, SessionError>(
            ParamState { data: Some(data), ..state },
        ),
{
    let param = bytes.subrange(offset, bytes.len() as int);
    assert(bytes[offset] == param[0]);
    assert(bytes[offset + 1] == param[1]);
    assert(param.subrange(2, 2 + data.len() as int) =~= data);
    assert(bytes.subrange(offset + 2, offset + 2 + data.len()) =~= param.subrange(
        2,
        2 + data.len() as int,
    ));
}

/// Session CONNECT round trip: a well-formed CONNECT SPDU, encoded and
/// parsed again, comes back unchanged.
pub proof fn lemma_connect_roundtrip(spdu: ConnectSpduView)
    requires
        spdu.wf(),
    ensures
        ConnectSpdu::spec_parse(spdu.bytes()) == Ok::<ConnectSpduView, SessionError>(spdu),
        spdu.bytes().len() == spdu.body().len() + 2,
{
    let bytes = spdu.bytes();
    let item = spec_item_bytes(0);
    let requirement = spec_requirement_bytes(spdu.session_requirement);
    let calling = spec_selector_bytes(PGI_CALLING_SESSION_SELECTOR, spdu.calling_session_selector);
    let called = spec_selector_bytes(PGI_CALLED_SESSION_SELECTOR, spdu.called_session_selector);
    let data = spec_user_data_bytes(spdu.data);
    let o1: int = 2;
    let o2: int = o1 + 8;
    let o3: int = o2 + 4;
    let o4: int = o3 + calling.len();
    let o5: int = o4 + called.len();
    assert(item.len() == 8);
    assert(requirement.len() == 4);
    assert(data.len() == spdu.data.len() + 2);
    assert(bytes.len() == o5 + data.len());
    assert(bytes.subrange(o1, o2) == item);
    assert(bytes.subrange(o2, o3) == requirement);
    assert(bytes.subrange(o3, o4) == calling);
    assert(bytes.subrange(o4, o5) == called);
    assert(bytes.subrange(o5, bytes.len() as int) == data);
    let s0 = ParamState::empty();
    let s1 = ParamState { options: Some(0u8), ..s0 };
    let s2 = ParamState { requirement: Some(spdu.session_requirement), ..s1 };
    let s3 = ParamState { calling: spdu.calling_session_selector, ..s2 };
    let s4 = ParamState { called: spdu.called_session_selector, ..s3 };
    let s5 = ParamState { data: Some(spdu.data), ..s4 };
    lemma_param_item(bytes, o1, s0, 0);
    lemma_param_requirement(bytes, o2, s1, spdu.session_requirement);
    lemma_param_selector(
        bytes,
        o3,
        s2,
        PGI_CALLING_SESSION_SELECTOR,
        spdu.calling_session_selector,
    );
    lemma_param_selector(bytes, o4, s3, PGI_CALLED_SESSION_SELECTOR, spdu.called_session_selector);
    lemma_param_user_data(bytes, o5, s4, spdu.data);
    assert(spec_parse_params(bytes, o1, s0) == Ok::<ParamState, SessionError>(s5));
    assert(s5.finish() == Ok::<ConnectSpduView, SessionError>(spdu));
}

/// The ACCEPT SPDU.
#[derive(Debug, Clone, PartialEq, Eq)]
pub struct AcceptSpdu {
    /// The called session selector.
    pub called_session_selector: Option<SSelector>,
    /// The functional unit that the peer grants.
    pub session_requirement: SessionRequirement,
    /// The protocol options.
    pub protocol_options: u8,
    /// The user data.
    pub data: Vec<u8>,
}

/// The ghost model of an ACCEPT SPDU.
pub struct AcceptSpduView {
    /// The called session selector.
    pub called_session_selector: Option<Seq<u8>>,
    /// The functional unit that the peer grants.
    pub session_requirement: SessionRequirement,
    /// The protocol options.
    pub protocol_options: u8,
    /// The user data.
    pub data: Seq<u8>,
}

impl View for AcceptSpdu {
    type V = AcceptSpduView;

    open spec fn view(&self) -> AcceptSpduView {
        AcceptSpduView {
            called_session_selector: selector_view(self.called_session_selector),
            session_requirement: self.session_requirement,
            protocol_options: self.protocol_options,
            data: self.data@,
        }
    }
}

impl AcceptSpduView {
    /// The parameters of the SPDU as they go on the wire.
    pub open spec fn body(self) -> Seq<u8> {
        spec_item_bytes(self.protocol_options) + spec_requirement_bytes(self.session_requirement)
            + spec_selector_bytes(PGI_CALLED_SESSION_SELECTOR, self.called_session_selector)
            + spec_user_data_bytes(self.data)
    }

    /// The SPDU as it goes on the wire.
    pub open spec fn bytes(self) -> Seq<u8> {
        seq![0x0Eu8, (self.body().len() % 256) as u8] + self.body()
    }

    /// An ACCEPT SPDU is well formed when the parser gives it back from its
    /// own bytes.
    pub open spec fn wf(self) -> bool {
        &&& self.data.len() <= 255
        &&& (self.called_session_selector matches Some(s) ==> s.len() <= 16)
    }

    /// The ACCEPT SPDU with the parameters of a CONNECT SPDU, the calling
    /// selector left out.
    pub open spec fn from_connect(spdu: ConnectSpduView) -> AcceptSpduView {
        AcceptSpduView {
            called_session_selector: spdu.called_session_selector,
            session_requirement: spdu.session_requirement,
            protocol_options: spdu.protocol_options,
            data: spdu.data,
        }
    }
}

impl AcceptSpdu {
    /// What a byte string parses to as an ACCEPT SPDU: the parameters are
    /// read as those of a CONNECT SPDU.
    pub open spec fn spec_parse(bytes: Seq<u8>) -> Result<AcceptSpduView, SessionError> {
        match ConnectSpdu::spec_parse(bytes) {
            Ok(spdu) => Ok(AcceptSpduView::from_connect(spdu)),
            Err(e) => Err(e),
        }
    }

    /// Creates an ACCEPT SPDU.
    pub fn new(
        called: SSelector,
        requirement: SessionRequirement,
        protocol_options: u8,
        data: Vec<u8>,
    ) -> (res: Self)
        ensures
            res.called_session_selector == Some(called),
            res.session_requirement == requirement,
            res.protocol_options == protocol_options,
            res.data == data,
    {
        Self {
            called_session_selector: Some(called),
            session_requirement: requirement,
            protocol_options,
            data,
        }
    }

    /// Parses an ACCEPT SPDU.
    pub fn from_bytes(bytes: &[u8]) -> (res: Result<Self, SessionError>)
        ensures
            parsed(res) == Self::spec_parse(bytes@),
    {
        match ConnectSpdu::from_bytes(bytes) {
            Ok(connect_spdu) => Ok(
                Self {
                    called_session_selector: connect_spdu.called_session_selector,
                    session_requirement: connect_spdu.session_requirement,
                    protocol_options: connect_spdu.protocol_options,
                    data: connect_spdu.data,
                },
            ),
            Err(e) => Err(e),
        }
    }

    /// Encodes the ACCEPT SPDU.
    pub fn to_bytes(&self) -> (res: Vec<u8>)
        ensures
            res@ == self@.bytes(),
    {
        let mut body: Vec<u8> = Vec::new();
        ConnectSpdu::encode_connect_accept_item(&mut body, self.protocol_options);
        encode_requirement(self.session_requirement, &mut body);
        encode_selector(PGI_CALLED_SESSION_SELECTOR, &self.called_session_selector, &mut body);
        body.push(PGI_USER_DATA);
        body.push((self.data.len() % 256) as u8);
        append_bytes(&mut body, self.data.as_slice());
        assert(body@ =~= self@.body());

        let mut buffer: Vec<u8> = Vec::new();
        buffer.push(0x0E);
        buffer.push((body.len() % 256) as u8);
        append_bytes(&mut buffer, body.as_slice());
        buffer
    }
}

/// Round trip of ACCEPT SPDUs: a well-formed one, encoded and parsed again,
/// comes back unchanged.
pub proof fn lemma_accept_roundtrip(spdu: AcceptSpduView)
    requires
        spdu.wf(),
    ensures
        AcceptSpdu::spec_parse(spdu.bytes()) == Ok::<AcceptSpduView, SessionError>(spdu),
        spdu.bytes().len() == spdu.body().len() + 2,
{
    let bytes = spdu.bytes();
    let item = spec_item_bytes(spdu.protocol_options);
    let requirement = spec_requirement_bytes(spdu.session_requirement);
    let called = spec_selector_bytes(PGI_CALLED_SESSION_SELECTOR, spdu.called_session_selector);
    let data = spec_user_data_bytes(spdu.data);
    let o1: int = 2;
    let o2: int = o1 + 8;
    let o3: int = o2 + 4;
    let o4: int = o3 + called.len();
    assert(item.len() == 8);
    assert(requirement.len() == 4);
    assert(data.len() == spdu.data.len() + 2);
    assert(bytes.len() == o4 + data.len());
    assert(bytes.subrange(o1, o2) == item);
    assert(bytes.subrange(o2, o3) == requirement);
    assert(bytes.subrange(o3, o4) == called);
    assert(bytes.subrange(o4, bytes.len() as int) == data);
    let s0 = ParamState::empty();
    let s1 = ParamState { options: Some(spdu.protocol_options), ..s0 };
    let s2 = ParamState { requirement: Some(spdu.session_requirement), ..s1 };
    let s3 = ParamState { called: spdu.called_session_selector, ..s2 };
    let s4 = ParamState { data: Some(spdu.data), ..s3 };
    lemma_param_item(bytes, o1, s0, spdu.protocol_options);
    lemma_param_requirement(bytes, o2, s1, spdu.session_requirement);
    lemma_param_selector(bytes, o3, s2, PGI_CALLED_SESSION_SELECTOR, spdu.called_session_selector);
    lemma_param_user_data(bytes, o4, s3, spdu.data);
    assert(spec_parse_params(bytes, o1, s0) == Ok::<ParamState, SessionError>(s4));
}

/// The DATA SPDU, which a GIVE TOKENS SPDU without parameters precedes.
#[derive(Debug, Clone, PartialEq, Eq)]
pub struct DataSpdu {
    /// The user data.
    pub data: Vec<u8>,
}

impl View for DataSpdu {
    type V = Seq<u8>;

    open spec fn view(&self) -> Seq<u8> {
        self.data@
    }
}

impl DataSpdu {
    /// The four bytes in front of the user data: GIVE TOKENS and DATA, both
    /// without parameters.
    pub open spec fn spec_prelude() -> Seq<u8> {
        seq![0x01u8, 0x00u8, 0x01u8, 0x00u8]
    }

    /// The SPDU as it goes on the wire: the prelude and the user data.
    pub open spec fn spec_bytes(data: Seq<u8>) -> Seq<u8> {
        Self::spec_prelude() + data
    }

    /// What a byte string parses to as a DATA SPDU: what follows the
    /// prelude. Four bytes that are not the prelude are an error.
    pub open spec fn spec_parse(bytes: Seq<u8>) -> Result<Seq<u8>, SessionError> {
        if bytes.len() < 4 {
            Err(SessionError::MessageTooShort)
        } else if bytes.take(4) == Self::spec_prelude() {
            Ok(bytes.skip(4))
        } else {
            Err(SessionError::InvalidDataSpdu)
        }
    }

    /// Creates a DATA SPDU.
    pub fn new(data: Vec<u8>) -> (res: Self)
        ensures
            res.data == data,
    {
        Self { data }
    }

    /// Parses a DATA SPDU.
    pub fn from_bytes(bytes: &[u8]) -> (res: Result<Self, SessionError>)
        ensures
            parsed(res) == Self::spec_parse(bytes@),
    {
        if bytes.len() < 4 {
            return Err(SessionError::MessageTooShort);
        }
        if bytes[0] == 0x01 && bytes[1] == 0 && bytes[2] == PGI_CONNECTION_IDENTIFIER && bytes[3]
            == 0 {
            let data: Vec<u8> = copy_range(bytes, 4, bytes.len());
            assert(data@ == bytes@.skip(4));
            assert(bytes@.take(4) =~= Self::spec_prelude());
            Ok(Self { data })
        } else {
            assert(bytes@.take(4)[0] == bytes@[0] && bytes@.take(4)[1] == bytes@[1]
                && bytes@.take(4)[2] == bytes@[2] && bytes@.take(4)[3] == bytes@[3]);
            Err(SessionError::InvalidDataSpdu)
        }
    }

    /// Encodes the DATA SPDU.
    pub fn to_bytes(&self) -> (res: Vec<u8>)
        ensures
            res@ == Self::spec_bytes(self@),
    {
        let mut buffer: Vec<u8> = Vec::new();
        buffer.push(0x01);
        buffer.push(0x00);
        buffer.push(PGI_CONNECTION_IDENTIFIER);
        buffer.push(0x00);
        append_bytes(&mut buffer, self.data.as_slice());
        assert(buffer@ =~= Self::spec_bytes(self@));
        buffer
    }
}

/// Session DATA wrapping: the encoding of any user data is the four-byte
/// prelude followed by the data, and parsing it gives the data back.
pub proof fn lemma_data_roundtrip(data: Seq<u8>)
    ensures
        DataSpdu::spec_bytes(data) == seq![0x01u8, 0x00u8, 0x01u8, 0x00u8] + data,
        DataSpdu::spec_parse(DataSpdu::spec_bytes(data)) == Ok::<Seq<u8>, SessionError>(data),
        Spdu::spec_parse(DataSpdu::spec_bytes(data)) == Ok::<SpduView, SessionError>(
            SpduView::Data(data),
        ),
{
    assert(DataSpdu::spec_bytes(data).skip(4) == data);
    assert(DataSpdu::spec_bytes(data).take(4) =~= DataSpdu::spec_prelude());
}

/// What the parameters of a FINISH or DISCONNECT SPDU give from `offset`
/// on: everything after the header of the first user data parameter, or
/// nothing when there is none.
pub open spec fn spec_parse_finish_from(bytes: Seq<u8>, offset: int) -> Result<
    Option<Seq<u8>>,
    SessionError,
>
    decreases bytes.len() - offset,
{
    if offset < 0 || offset >= bytes.len() {
        Ok(None)
    } else if offset + 1 >= bytes.len() {
        Err(SessionError::UnexpectedEndOfMessage)
    } else if bytes[offset] == PGI_USER_DATA {
        Ok(Some(bytes.skip(offset + 2)))
    } else {
        spec_parse_finish_from(
            bytes,
            spec_clamp(offset + 2 + bytes[offset + 1], bytes.len()),
        )
    }
}

/// A FINISH or DISCONNECT SPDU as it goes on the wire: the type, the length
/// of what follows (modulo 256) and one user data parameter.
pub open spec fn spec_finish_bytes(code: u8, data: Seq<u8>) -> Seq<u8> {
    seq![code, ((2 + data.len()) % 256) as u8, PGI_USER_DATA, (data.len() % 256) as u8] + data
}

/// What a byte string parses to as a FINISH or DISCONNECT SPDU: its user
/// data, empty when there is no such parameter.
pub open spec fn spec_finish_parse(bytes: Seq<u8>) -> Result<Seq<u8>, SessionError> {
    if bytes.len() < 2 {
        Err(SessionError::NotEnoughBytes)
    } else {
        match spec_parse_finish_from(bytes.skip(2), 0) {
            Ok(Some(data)) => Ok(data),
            Ok(None) => Ok(Seq::empty()),
            Err(e) => Err(e),
        }
    }
}

/// Encodes a FINISH or DISCONNECT SPDU.
fn finish_to_bytes(code: u8, data: &Vec<u8>) -> (res: Vec<u8>)
    ensures
        res@ == spec_finish_bytes(code, data@),
{
    let mut buffer: Vec<u8> = Vec::new();
    buffer.push(code);
    buffer.push(((2 + data.len() % 256) % 256) as u8);
    buffer.push(PGI_USER_DATA);
    buffer.push((data.len() % 256) as u8);
    append_bytes(&mut buffer, data.as_slice());
    assert(buffer@ =~= spec_finish_bytes(code, data@));
    buffer
}

/// The FINISH SPDU.
#[derive(Debug, Clone, PartialEq, Eq)]
pub struct FinishSpdu {
    /// The user data.
    pub data: Vec<u8>,
}

impl View for FinishSpdu {
    type V = Seq<u8>;

    open spec fn view(&self) -> Seq<u8> {
        self.data@
    }
}

impl FinishSpdu {
    /// Creates a FINISH SPDU.
    pub fn new(user_data: Vec<u8>) -> (res: Self)
        ensures
            res.data == user_data,
    {
        Self { data: user_data }
    }

    /// Parses a FINISH SPDU.
    pub fn from_bytes(bytes: &[u8]) -> (res: Result<Self, SessionError>)
        ensures
            parsed(res) == spec_finish_parse(bytes@),
    {
        if bytes.len() < 2 {
            return Err(SessionError::NotEnoughBytes);
        }
        let mut spdu: FinishSpdu = Self { data: Vec::new() };
        let params = vstd::slice::slice_subrange(bytes, 2, bytes.len());
        assert(params@ == bytes@.skip(2));
        match spdu.parse_parameters(params) {
            Ok(()) => Ok(spdu),
            Err(e) => Err(e),
        }
    }

    /// Encodes the FINISH SPDU.
    pub fn to_bytes(&self) -> (res: Vec<u8>)
        ensures
            res@ == spec_finish_bytes(0x09, self@),
    {
        finish_to_bytes(0x09, &self.data)
    }

    /// Reads the parameters and takes the user data from them. Without a
    /// user data parameter, and on an error, the SPDU stays as it is.
    pub fn parse_parameters(&mut self, bytes: &[u8]) -> (res: Result<(), SessionError>)
        ensures
            match spec_parse_finish_from(bytes@, 0) {
                Ok(Some(data)) => res is Ok && final(self)@ == data,
                Ok(None) => res is Ok && final(self)@ == old(self)@,
                Err(e) => res == Err::<(), SessionError>(e) && final(self)@ == old(self)@,
            },
    {
        let n: usize = bytes.len();
        let mut offset: usize = 0;
        while offset < n
            invariant
                n == bytes@.len(),
                offset <= n,
                self@ == old(self)@,
                spec_parse_finish_from(bytes@, 0) == spec_parse_finish_from(bytes@, offset as int),
            decreases n - offset,
        {
            if n - offset < 2 {
                return Err(SessionError::UnexpectedEndOfMessage);
            }
            let tag: u8 = bytes[offset];
            let param_len: usize = bytes[offset + 1] as usize;
            if tag == PGI_USER_DATA {
                self.data = copy_range(bytes, offset + 2, n);
                assert(self.data@ == bytes@.skip(offset + 2));
                return Ok(());
            }
            if n - offset - 2 < param_len {
                offset = n;
            } else {
                offset = offset + 2 + param_len;
            }
        }
        Ok(())
    }
}

/// The DISCONNECT SPDU.
#[derive(Debug, Clone, PartialEq, Eq)]
pub struct DisconnectSpdu {
    /// The user data.
    pub user_data: Vec<u8>,
}

impl View for DisconnectSpdu {
    type V = Seq<u8>;

    open spec fn view(&self) -> Seq<u8> {
        self.user_data@
    }
}

impl DisconnectSpdu {
    /// Creates a DISCONNECT SPDU.
    pub fn new(user_data: Vec<u8>) -> (res: Self)
        ensures
            res.user_data == user_data,
    {
        Self { user_data }
    }

    /// Parses a DISCONNECT SPDU.
    pub fn from_bytes(bytes: &[u8]) -> (res: Result<Self, SessionError>)
        ensures
            parsed(res) == spec_finish_parse(bytes@),
    {
        match FinishSpdu::from_bytes(bytes) {
            Ok(f) => Ok(Self { user_data: f.data }),
            Err(e) => Err(e),
        }
    }

    /// Encodes the DISCONNECT SPDU.
    pub fn to_bytes(&self) -> (res: Vec<u8>)
        ensures
            res@ == spec_finish_bytes(0x0A, self@),
    {
        finish_to_bytes(0x0A, &self.user_data)
    }
}

/// Round trip of FINISH and DISCONNECT SPDUs: user data of any length comes
/// back from its encoding.
pub proof fn lemma_finish_roundtrip(code: u8, data: Seq<u8>)
    ensures
        spec_finish_parse(spec_finish_bytes(code, data)) == Ok::<Seq<u8>, SessionError>(data),
{
    let bytes = spec_finish_bytes(code, data);
    let params = bytes.skip(2);
    assert(params[0] == PGI_USER_DATA);
    assert(params.skip(2) == data);
}

/// The ABORT SPDU.
#[derive(Debug, Clone, PartialEq, Eq)]
pub struct AbortSpdu {
    /// The user data.
    pub user_data: Vec<u8>,
}

impl View for AbortSpdu {
    type V = Seq<u8>;

    open spec fn view(&self) -> Seq<u8> {
        self.user_data@
    }
}

impl AbortSpdu {
    /// The SPDU as it goes on the wire: the type, the length of what
    /// follows (modulo 256), a transport disconnect parameter with the value
    /// 11, and one user data parameter.
    pub open spec fn spec_bytes(data: Seq<u8>) -> Seq<u8> {
        seq![
            0x19u8,
            ((5 + data.len()) % 256) as u8,
            PGI_TRANSPORT_DISCONNECT,
            1u8,
            11u8,
            PGI_USER_DATA,
            (data.len() % 256) as u8,
        ] + data
    }

    /// What a byte string parses to as an ABORT SPDU: what follows its first
    /// seven bytes.
    pub open spec fn spec_parse(bytes: Seq<u8>) -> Result<Seq<u8>, SessionError> {
        if bytes.len() < 7 {
            Err(SessionError::MessageTooShort)
        } else {
            Ok(bytes.skip(7))
        }
    }

    /// Creates an ABORT SPDU.
    pub fn new(user_data: Vec<u8>) -> (res: Self)
        ensures
            res.user_data == user_data,
    {
        Self { user_data }
    }

    /// Parses an ABORT SPDU.
    pub fn from_bytes(bytes: &[u8]) -> (res: Result<Self, SessionError>)
        ensures
            parsed(res) == Self::spec_parse(bytes@),
    {
        if bytes.len() < 7 {
            return Err(SessionError::MessageTooShort);
        }
        let user_data: Vec<u8> = copy_range(bytes, 7, bytes.len());
        assert(user_data@ == bytes@.skip(7));
        Ok(Self { user_data })
    }

    /// Encodes the ABORT SPDU.
    pub fn to_bytes(&self) -> (res: Vec<u8>)
        ensures
            res@ == Self::spec_bytes(self@),
    {
        let mut buffer: Vec<u8> = Vec::new();
        buffer.push(0x19);
        buffer.push(((5 + self.user_data.len() % 256) % 256) as u8);
        buffer.push(PGI_TRANSPORT_DISCONNECT);
        buffer.push(1);
        buffer.push(11);
        buffer.push(PGI_USER_DATA);
        buffer.push((self.user_data.len() % 256) as u8);
        append_bytes(&mut buffer, self.user_data.as_slice());
        assert(buffer@ =~= Self::spec_bytes(self@));
        buffer
    }
}

/// Round trip of ABORT SPDUs: user data of any length comes back from its
/// encoding.
pub proof fn lemma_abort_roundtrip(data: Seq<u8>)
    ensures
        AbortSpdu::spec_parse(AbortSpdu::spec_bytes(data)) == Ok::<Seq<u8>, SessionError>(data),
{
    assert(AbortSpdu::spec_bytes(data).skip(7) == data);
}

/// The REFUSE SPDU.
#[derive(Debug, Clone, Copy, PartialEq, Eq, Structural)]
pub struct RefuseSpdu {
    /// The reason for the refusal.
    pub reason_code: u8,
}

impl View for RefuseSpdu {
    type V = u8;

    open spec fn view(&self) -> u8 {
        self.reason_code
    }
}

impl RefuseSpdu {
    /// The SPDU as it goes on the wire: ten bytes, the last the reason.
    pub open spec fn spec_bytes(reason_code: u8) -> Seq<u8> {
        seq![
            0x0Cu8,
            8u8,
            PGI_CONNECTION_IDENTIFIER,
            6u8,
            PGI_TRANSPORT_DISCONNECT,
            1u8,
            1u8,
            PI_REASON_CODE,
            1u8,
            reason_code,
        ]
    }

    /// What a byte string parses to as a REFUSE SPDU: its tenth byte.
    pub open spec fn spec_parse(bytes: Seq<u8>) -> Result<u8, SessionError> {
        if bytes.len() < 10 {
            Err(SessionError::MessageTooShort)
        } else {
            Ok(bytes[9])
        }
    }

    /// Creates a REFUSE SPDU.
    pub fn new(reason_code: u8) -> (res: Self)
        ensures
            res.reason_code == reason_code,
    {
        Self { reason_code }
    }

    /// Parses a REFUSE SPDU.
    pub fn from_bytes(bytes: &[u8]) -> (res: Result<Self, SessionError>)
        ensures
            parsed(res) == Self::spec_parse(bytes@),
    {
        if bytes.len() < 10 {
            return Err(SessionError::MessageTooShort);
        }
        Ok(Self { reason_code: bytes[9] })
    }

    /// Encodes the REFUSE SPDU.
    pub fn to_bytes(&self) -> (res: Vec<u8>)
        ensures
            res@ == Self::spec_bytes(self@),
    {
        let mut buffer: Vec<u8> = Vec::new();
        buffer.push(0x0C);
        buffer.push(8);
        buffer.push(PGI_CONNECTION_IDENTIFIER);
        buffer.push(6);
        buffer.push(PGI_TRANSPORT_DISCONNECT);
        buffer.push(1);
        buffer.push(1);
        buffer.push(PI_REASON_CODE);
        buffer.push(1);
        buffer.push(self.reason_code);
        assert(buffer@ =~= Self::spec_bytes(self@));
        buffer
    }
}

/// A session protocol data unit.
#[derive(Debug, Clone, PartialEq, Eq)]
pub enum Spdu {
    /// CONNECT.
    Connect(ConnectSpdu),
    /// ACCEPT.
    Accept(AcceptSpdu),
    /// GIVE TOKENS with DATA.
    Data(DataSpdu),
    /// FINISH.
    Finish(FinishSpdu),
    /// DISCONNECT.
    Disconnect(DisconnectSpdu),
    /// ABORT.
    Abort(AbortSpdu),
    /// REFUSE.
    Refuse(RefuseSpdu),
    /// NOT FINISHED.
    NotFinished,
}

/// The ghost model of an SPDU.
pub enum SpduView {
    /// CONNECT.
    Connect(ConnectSpduView),
    /// ACCEPT.
    Accept(AcceptSpduView),
    /// GIVE TOKENS with DATA: the user data.
    Data(Seq<u8>),
    /// FINISH: the user data.
    Finish(Seq<u8>),
    /// DISCONNECT: the user data.
    Disconnect(Seq<u8>),
    /// ABORT: the user data.
    Abort(Seq<u8>),
    /// REFUSE: the reason.
    Refuse(u8),
    /// NOT FINISHED.
    NotFinished,
}

impl View for Spdu {
    type V = SpduView;

    open spec fn view(&self) -> SpduView {
        match self {
            Spdu::Connect(spdu) => SpduView::Connect(spdu@),
            Spdu::Accept(spdu) => SpduView::Accept(spdu@),
            Spdu::Data(spdu) => SpduView::Data(spdu@),
            Spdu::Finish(spdu) => SpduView::Finish(spdu@),
            Spdu::Disconnect(spdu) => SpduView::Disconnect(spdu@),
            Spdu::Abort(spdu) => SpduView::Abort(spdu@),
            Spdu::Refuse(spdu) => SpduView::Refuse(spdu@),
            Spdu::NotFinished => SpduView::NotFinished,
        }
    }
}

impl SpduView {
    /// The SPDU as it goes on the wire.
    pub open spec fn bytes(self) -> Seq<u8> {
        match self {
            SpduView::Connect(spdu) => spdu.bytes(),
            SpduView::Accept(spdu) => spdu.bytes(),
            SpduView::Data(data) => DataSpdu::spec_bytes(data),
            SpduView::Finish(data) => spec_finish_bytes(0x09, data),
            SpduView::Disconnect(data) => spec_finish_bytes(0x0A, data),
            SpduView::Abort(data) => AbortSpdu::spec_bytes(data),
            SpduView::Refuse(reason) => RefuseSpdu::spec_bytes(reason),
            SpduView::NotFinished => seq![0x08u8, 0x00u8],
        }
    }
}

/// Lifts the result of one SPDU parser into the sum of all SPDUs.
pub open spec fn spec_lift<A>(res: Result<A, SessionError>, wrap: spec_fn(A) -> SpduView) -> Result<
    SpduView,
    SessionError,
> {
    match res {
        Ok(a) => Ok(wrap(a)),
        Err(e) => Err(e),
    }
}

impl Spdu {
    /// What a byte string parses to as an SPDU. The first byte decides the
    /// type. For CONNECT, ACCEPT, FINISH and DISCONNECT the length byte must
    /// count exactly the bytes that follow it.
    pub open spec fn spec_parse(bytes: Seq<u8>) -> Result<SpduView, SessionError> {
        if bytes.len() < 2 {
            Err(SessionError::NotEnoughBytes)
        } else {
            let length_fits = bytes[1] == bytes.len() - 2;
            match SpduType::spec_from_code(bytes[0]) {
                SpduType::Connect => if !length_fits {
                    Err(SessionError::InvalidLength)
                } else {
                    spec_lift(ConnectSpdu::spec_parse(bytes), |s| SpduView::Connect(s))
                },
                SpduType::Accept => if !length_fits {
                    Err(SessionError::InvalidLength)
                } else {
                    spec_lift(AcceptSpdu::spec_parse(bytes), |s| SpduView::Accept(s))
                },
                SpduType::GiveTokenData => spec_lift(
                    DataSpdu::spec_parse(bytes),
                    |d| SpduView::Data(d),
                ),
                SpduType::Finish => if !length_fits {
                    Err(SessionError::InvalidLength)
                } else {
                    spec_lift(spec_finish_parse(bytes), |d| SpduView::Finish(d))
                },
                SpduType::Disconnect => if !length_fits {
                    Err(SessionError::InvalidLength)
                } else {
                    spec_lift(spec_finish_parse(bytes), |d| SpduView::Disconnect(d))
                },
                SpduType::Abort => spec_lift(AbortSpdu::spec_parse(bytes), |d| SpduView::Abort(d)),
                SpduType::Refuse => spec_lift(
                    RefuseSpdu::spec_parse(bytes),
                    |r| SpduView::Refuse(r),
                ),
                SpduType::NotFinished => Ok(SpduView::NotFinished),
                SpduType::Invalid => Err(SessionError::InvalidSpduType { value: bytes[0] }),
            }
        }
    }

    /// Parses an SPDU.
    pub fn from_bytes(bytes: &[u8]) -> (res: Result<Self, SessionError>)
        ensures
            parsed(res) == Self::spec_parse(bytes@),
    {
        if bytes.len() < 2 {
            return Err(SessionError::NotEnoughBytes);
        }
        let length: usize = bytes[1] as usize;
        let length_fits: bool = length == bytes.len() - 2;
        match SpduType::from(bytes[0]) {
            SpduType::Connect => {
                if !length_fits {
                    return Err(SessionError::InvalidLength);
                }
                match ConnectSpdu::from_bytes(bytes) {
                    Ok(spdu) => Ok(Spdu::Connect(spdu)),
                    Err(e) => Err(e),
                }
            },
            SpduType::Accept => {
                if !length_fits {
                    return Err(SessionError::InvalidLength);
                }
                match AcceptSpdu::from_bytes(bytes) {
                    Ok(spdu) => Ok(Spdu::Accept(spdu)),
                    Err(e) => Err(e),
                }
            },
            SpduType::GiveTokenData => match DataSpdu::from_bytes(bytes) {
                Ok(spdu) => Ok(Spdu::Data(spdu)),
                Err(e) => Err(e),
            },
            SpduType::Finish => {
                if !length_fits {
                    return Err(SessionError::InvalidLength);
                }
                match FinishSpdu::from_bytes(bytes) {
                    Ok(spdu) => Ok(Spdu::Finish(spdu)),
                    Err(e) => Err(e),
                }
            },
            SpduType::Disconnect => {
                if !length_fits {
                    return Err(SessionError::InvalidLength);
                }
                match DisconnectSpdu::from_bytes(bytes) {
                    Ok(spdu) => Ok(Spdu::Disconnect(spdu)),
                    Err(e) => Err(e),
                }
            },
            SpduType::Abort => match AbortSpdu::from_bytes(bytes) {
                Ok(spdu) => Ok(Spdu::Abort(spdu)),
                Err(e) => Err(e),
            },
            SpduType::Refuse => match RefuseSpdu::from_bytes(bytes) {
                Ok(spdu) => Ok(Spdu::Refuse(spdu)),
                Err(e) => Err(e),
            },
            SpduType::NotFinished => Ok(Spdu::NotFinished),
            SpduType::Invalid => Err(SessionError::InvalidSpduType { value: bytes[0] }),
        }
    }

    /// Encodes the SPDU.
    pub fn to_bytes(&self) -> (res: Vec<u8>)
        ensures
            res@ == self@.bytes(),
    {
        match self {
            Spdu::Connect(spdu) => spdu.to_bytes(),
            Spdu::Accept(spdu) => spdu.to_bytes(),
            Spdu::Data(spdu) => spdu.to_bytes(),
            Spdu::Finish(spdu) => spdu.to_bytes(),
            Spdu::Disconnect(spdu) => spdu.to_bytes(),
            Spdu::Abort(spdu) => spdu.to_bytes(),
            Spdu::Refuse(spdu) => spdu.to_bytes(),
            Spdu::NotFinished => {
                let mut buffer: Vec<u8> = Vec::new();
                buffer.push(0x08);
                buffer.push(0x00);
                assert(buffer@ =~= self@.bytes());
                buffer
            },
        }
    }
}

/// Round trip through the sum of all SPDUs: a well-formed CONNECT SPDU
/// whose parameters fit the length byte comes back as a CONNECT SPDU.
pub proof fn lemma_spdu_connect_roundtrip(spdu: ConnectSpduView)
    requires
        spdu.wf(),
        spdu.body().len() <= 255,
    ensures
        Spdu::spec_parse(spdu.bytes()) == Ok::<SpduView, SessionError>(SpduView::Connect(spdu)),
{
    lemma_connect_roundtrip(spdu);
}

/// Round trip through the sum of all SPDUs: a well-formed ACCEPT SPDU whose
/// parameters fit the length byte comes back as an ACCEPT SPDU.
pub proof fn lemma_spdu_accept_roundtrip(spdu: AcceptSpduView)
    requires
        spdu.wf(),
        spdu.body().len() <= 255,
    ensures
        Spdu::spec_parse(spdu.bytes()) == Ok::<SpduView, SessionError>(SpduView::Accept(spdu)),
{
    lemma_accept_roundtrip(spdu);
}

/// The session layer of one association: its two selectors. It builds what
/// is to be sent and reads what was received; sending and receiving is left
/// to the caller.
#[derive(Debug, Clone, PartialEq, Eq)]
pub struct Session {
    /// The selector of this side.
    pub local_s_sel: SSelector,
    /// The selector of the peer.
    pub remote_s_sel: SSelector,
}

/// The ghost model of a session layer: the local and the remote selector.
pub struct SessionView {
    /// The selector of this side.
    pub local_s_sel: Seq<u8>,
    /// The selector of the peer.
    pub remote_s_sel: Seq<u8>,
}

impl View for Session {
    type V = SessionView;

    open spec fn view(&self) -> SessionView {
        SessionView { local_s_sel: self.local_s_sel@, remote_s_sel: self.remote_s_sel@ }
    }
}

impl SessionView {
    /// The CONNECT SPDU that opens the session with the given user data:
    /// both selectors, the duplex functional unit, protocol options 0.
    pub open spec fn connect_spdu(self, data: Seq<u8>) -> ConnectSpduView {
        ConnectSpduView {
            calling_session_selector: Some(self.local_s_sel),
            called_session_selector: Some(self.remote_s_sel),
            session_requirement: SessionRequirement::Duplex,
            protocol_options: 0,
            data,
        }
    }
}

/// What the answer to a CONNECT SPDU gives: the user data of an ACCEPT
/// SPDU. Any other SPDU is an invalid response.
pub open spec fn spec_accepted(response: Seq<u8>) -> Result<Seq<u8>, SessionError> {
    match Spdu::spec_parse(response) {
        Ok(SpduView::Accept(spdu)) => Ok(spdu.data),
        Ok(_) => Err(SessionError::InvalidCotpResponse),
        Err(e) => Err(e),
    }
}

/// What a received data unit gives on an open session: the user data of a
/// DATA SPDU. Any other SPDU is an invalid response.
pub open spec fn spec_received(response: Seq<u8>) -> Result<Seq<u8>, SessionError> {
    match Spdu::spec_parse(response) {
        Ok(SpduView::Data(data)) => Ok(data),
        Ok(_) => Err(SessionError::InvalidCotpResponse),
        Err(e) => Err(e),
    }
}

impl Session {
    /// Takes the two selectors of a configuration. A selector of more than
    /// 16 bytes is rejected.
    pub fn new(local_s_sel: &[u8], remote_s_sel: &[u8]) -> (res: Result<Self, SessionError>)
        ensures
            match res {
                Ok(session) => {
                    &&& local_s_sel@.len() <= 16
                    &&& remote_s_sel@.len() <= 16
                    &&& session@.local_s_sel == local_s_sel@
                    &&& session@.remote_s_sel == remote_s_sel@
                },
                Err(e) => {
                    &&& local_s_sel@.len() > 16 || remote_s_sel@.len() > 16
                    &&& e == SessionError::InvalidSelectorSize
                },
            },
    {
        let local: SSelector = match SSelector::from_bytes(local_s_sel) {
            Ok(s) => s,
            Err(e) => {
                return Err(e);
            },
        };
        let remote: SSelector = match SSelector::from_bytes(remote_s_sel) {
            Ok(s) => s,
            Err(e) => {
                return Err(e);
            },
        };
        Ok(Self { local_s_sel: local, remote_s_sel: remote })
    }

    /// The bytes to send in order to open the session: the CONNECT SPDU
    /// with the payload of the upper layer as user data.
    pub fn connect(&self, data: &[u8]) -> (res: Vec<u8>)
        ensures
            res@ == self@.connect_spdu(data@).bytes(),
    {
        let payload: Vec<u8> = copy_range(data, 0, data.len());
        assert(payload@ == data@);
        let spdu: ConnectSpdu = ConnectSpdu::new(
            self.local_s_sel.duplicate(),
            self.remote_s_sel.duplicate(),
            SessionRequirement::Duplex,
            payload,
        );
        spdu.to_bytes()
    }

    /// Reads the answer to the CONNECT SPDU and gives the user data of the
    /// ACCEPT SPDU.
    pub fn accept(response: &[u8]) -> (res: Result<Vec<u8>, SessionError>)
        ensures
            match res {
                Ok(data) => spec_accepted(response@) == Ok::<Seq<u8>, SessionError>(data@),
                Err(e) => spec_accepted(response@) == Err::<Seq<u8>, SessionError>(e),
            },
    {
        match Spdu::from_bytes(response) {
            Ok(Spdu::Accept(accept_spdu)) => Ok(accept_spdu.data),
            Ok(_) => Err(SessionError::InvalidCotpResponse),
            Err(e) => Err(e),
        }
    }

    /// The bytes to send for a data unit on an open session: the DATA SPDU
    /// around it.
    pub fn send_data(data: Vec<u8>) -> (res: Vec<u8>)
        ensures
            res@ == DataSpdu::spec_bytes(data@),
    {
        let spdu: DataSpdu = DataSpdu::new(data);
        spdu.to_bytes()
    }

    /// Reads a received data unit on an open session and gives the user
    /// data of the DATA SPDU.
    pub fn receive_data(response: &[u8]) -> (res: Result<Vec<u8>, SessionError>)
        ensures
            match res {
                Ok(data) => spec_received(response@) == Ok::<Seq<u8>, SessionError>(data@),
                Err(e) => spec_received(response@) == Err::<Seq<u8>, SessionError>(e),
            },
    {
        match Spdu::from_bytes(response) {
            Ok(Spdu::Data(data_spdu)) => Ok(data_spdu.data),
            Ok(_) => Err(SessionError::InvalidCotpResponse),
            Err(e) => Err(e),
        }
    }
}

/// What is sent for a data unit is read back as that data unit.
pub proof fn lemma_send_receive(data: Seq<u8>)
    ensures
        spec_received(DataSpdu::spec_bytes(data)) == Ok::<Seq<u8>, SessionError>(data),
{
    lemma_data_roundtrip(data);
}

/// The state of a session connection.
#[derive(Debug, Clone, Copy, PartialEq, Eq, Structural)]
pub enum SessionState {
    /// No connection: none was asked for yet, or it has ended.
    Closed,
    /// The CONNECT SPDU was sent and the answer is awaited.
    Connecting,
    /// The peer accepted; data can flow both ways.
    Open,
}

/// What happens to a session connection.
#[derive(Debug, Clone, Copy, PartialEq, Eq, Structural)]
pub enum SessionEvent {
    /// The CONNECT SPDU was sent.
    ConnectSent,
    /// An SPDU of this type arrived.
    Received(SpduType),
    /// Something failed: the transport, or the reading of an SPDU.
    Failed,
}

impl SessionState {
    /// The state after an event. A closed connection starts to connect
    /// when the CONNECT SPDU is sent; a connecting one opens with ACCEPT; an
    /// open one stays open while data arrives. Everything else closes the
    /// connection: a failure, FINISH, DISCONNECT, ABORT, REFUSE, and any
    /// SPDU that the state does not expect.
    pub open spec fn spec_after(self, event: SessionEvent) -> SessionState {
        match (self, event) {
            (SessionState::Closed, SessionEvent::ConnectSent) => SessionState::Connecting,
            (
                SessionState::Connecting,
                SessionEvent::Received(SpduType::Accept),
            ) => SessionState::Open,
            (
                SessionState::Open,
                SessionEvent::Received(SpduType::GiveTokenData),
            ) => SessionState::Open,
            _ => SessionState::Closed,
        }
    }

    /// The state after an event.
    pub fn after(self, event: SessionEvent) -> (res: SessionState)
        ensures
            res == self.spec_after(event),
    {
        match (self, event) {
            (SessionState::Closed, SessionEvent::ConnectSent) => SessionState::Connecting,
            (
                SessionState::Connecting,
                SessionEvent::Received(SpduType::Accept),
            ) => SessionState::Open,
            (
                SessionState::Open,
                SessionEvent::Received(SpduType::GiveTokenData),
            ) => SessionState::Open,
            _ => SessionState::Closed,
        }
    }
}

/// A closed connection opens only by way of connecting, and whatever
/// happens to a closed connection other than the sending of a CONNECT SPDU
/// leaves it closed.
pub proof fn lemma_open_needs_accept(state: SessionState, event: SessionEvent)
    ensures
        state.spec_after(event) == SessionState::Open ==> (state == SessionState::Connecting
            && event == SessionEvent::Received(SpduType::Accept)) || (state == SessionState::Open
            && event == SessionEvent::Received(SpduType::GiveTokenData)),
        state == SessionState::Closed && event != SessionEvent::ConnectSent ==> state.spec_after(
            event,
        ) == SessionState::Closed,
        event == SessionEvent::Failed ==> state.spec_after(event) == SessionState::Closed,
{
}

} // verus!
