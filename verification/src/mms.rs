//! MMS client stack: configuration, layer framing and association logic.

use vstd::prelude::*;
use crate::mms::client::MIN_PDU_SIZE;
use crate::mms::cotp::COTP_MAX_TPDU_SIZE;
use crate::mms::cotp::MAX_SELECTOR_SIZE;

pub mod acse;
pub mod client;
pub mod codec;
pub mod cotp;
pub mod presentation;
pub mod session;

verus! {

/// The classes of MMS objects that a name-list request can ask for.
#[derive(Debug, Clone, Copy, PartialEq, Eq, Hash, Structural)]
pub enum MmsObjectClass {
    NamedVariable,
    ScatteredAccess,
    NamedVariableList,
    NamedType,
    Semaphore,
    EventCondition,
    EventAction,
    EventEnrollment,
    Journal,
    Domain,
    ProgramInvocation,
    OperatorStation,
    DataExchange,
    AccessControlList,
}

/// Errors of the configuration and of the object class codes.
#[derive(Debug, Clone, Copy, PartialEq, Eq, Structural)]
pub enum Error {
    /// A number that names no object class.
    InvalidObjectClass,
    /// A client key without a certificate, or a certificate without a key.
    IncompleteClientIdentity,
    /// A selector of more than 16 bytes.
    SelectorTooLong,
    /// A largest PDU size below 64.
    PduSizeTooSmall,
}

impl MmsObjectClass {
    /// The number that stands for this class on the wire.
    pub open spec fn spec_code(self) -> u8 {
        match self {
            MmsObjectClass::NamedVariable => 0,
            MmsObjectClass::ScatteredAccess => 1,
            MmsObjectClass::NamedVariableList => 2,
            MmsObjectClass::NamedType => 3,
            MmsObjectClass::Semaphore => 4,
            MmsObjectClass::EventCondition => 5,
            MmsObjectClass::EventAction => 6,
            MmsObjectClass::EventEnrollment => 7,
            MmsObjectClass::Journal => 8,
            MmsObjectClass::Domain => 9,
            MmsObjectClass::ProgramInvocation => 10,
            MmsObjectClass::OperatorStation => 11,
            MmsObjectClass::DataExchange => 12,
            MmsObjectClass::AccessControlList => 13,
        }
    }

    /// The class that a wire number stands for, if it stands for one.
    pub open spec fn spec_from_code(value: u8) -> Option<MmsObjectClass> {
        match value {
            0 => Some(MmsObjectClass::NamedVariable),
            1 => Some(MmsObjectClass::ScatteredAccess),
            2 => Some(MmsObjectClass::NamedVariableList),
            3 => Some(MmsObjectClass::NamedType),
            4 => Some(MmsObjectClass::Semaphore),
            5 => Some(MmsObjectClass::EventCondition),
            6 => Some(MmsObjectClass::EventAction),
            7 => Some(MmsObjectClass::EventEnrollment),
            8 => Some(MmsObjectClass::Journal),
            9 => Some(MmsObjectClass::Domain),
            10 => Some(MmsObjectClass::ProgramInvocation),
            11 => Some(MmsObjectClass::OperatorStation),
            12 => Some(MmsObjectClass::DataExchange),
            13 => Some(MmsObjectClass::AccessControlList),
            _ => None,
        }
    }

    /// Encodes the class as its wire number.
    pub fn code(self) -> (res: u8)
        ensures
            res == self.spec_code(),
            res <= 13,
    {
        match self {
            MmsObjectClass::NamedVariable => 0,
            MmsObjectClass::ScatteredAccess => 1,
            MmsObjectClass::NamedVariableList => 2,
            MmsObjectClass::NamedType => 3,
            MmsObjectClass::Semaphore => 4,
            MmsObjectClass::EventCondition => 5,
            MmsObjectClass::EventAction => 6,
            MmsObjectClass::EventEnrollment => 7,
            MmsObjectClass::Journal => 8,
            MmsObjectClass::Domain => 9,
            MmsObjectClass::ProgramInvocation => 10,
            MmsObjectClass::OperatorStation => 11,
            MmsObjectClass::DataExchange => 12,
            MmsObjectClass::AccessControlList => 13,
        }
    }
}


impl TryFrom<u8> for MmsObjectClass {
    type Error = Error;

    fn try_from(value: u8) -> (res: Result<MmsObjectClass, Error>) {
        match value {
            0 => Ok(MmsObjectClass::NamedVariable),
            1 => Ok(MmsObjectClass::ScatteredAccess),
            2 => Ok(MmsObjectClass::NamedVariableList),
            3 => Ok(MmsObjectClass::NamedType),
            4 => Ok(MmsObjectClass::Semaphore),
            5 => Ok(MmsObjectClass::EventCondition),
            6 => Ok(MmsObjectClass::EventAction),
            7 => Ok(MmsObjectClass::EventEnrollment),
            8 => Ok(MmsObjectClass::Journal),
            9 => Ok(MmsObjectClass::Domain),
            10 => Ok(MmsObjectClass::ProgramInvocation),
            11 => Ok(MmsObjectClass::OperatorStation),
            12 => Ok(MmsObjectClass::DataExchange),
            13 => Ok(MmsObjectClass::AccessControlList),
            _ => Err(Error::InvalidObjectClass),
        }
    }
}

impl vstd::std_specs::convert::TryFromSpecImpl<u8> for MmsObjectClass {
    open spec fn obeys_try_from_spec() -> bool {
        true
    }

    open spec fn try_from_spec(value: u8) -> Result<MmsObjectClass, Error> {
        match MmsObjectClass::spec_from_code(value) {
            Some(class) => Ok(class),
            None => Err(Error::InvalidObjectClass),
        }
    }
}

/// The codes 0 to 13 are exactly those of the object classes, and each
/// class comes back from its code.
pub proof fn lemma_object_class_codes(class: MmsObjectClass, value: u8)
    ensures
        MmsObjectClass::spec_from_code(class.spec_code()) == Some(class),
        MmsObjectClass::spec_from_code(value) is Some <==> value <= 13,
        MmsObjectClass::spec_from_code(value) matches Some(c) ==> c.spec_code() == value,
{
}

/// The paths of the TLS material of a client.
#[derive(Debug, Clone, PartialEq, Eq)]
pub struct TlsClientConfig {
    /// Path to the client key. Without key and certificate the server is
    /// taken not to verify client certificates.
    pub client_key: Option<String>,
    /// Path to the client certificate.
    pub client_certificate: Option<String>,
    /// Path to the server certificate. Without it the host's authorities
    /// verify the server.
    pub server_certificate: Option<String>,
    /// Whether to skip the verification of the server's certificate.
    pub danger_disable_tls_verify: bool,
}

/// Which client identity a TLS configuration asks for.
#[derive(Debug, Clone, Copy, PartialEq, Eq, Structural)]
pub enum ClientIdentity {
    /// Neither key nor certificate: no client identity.
    Anonymous,
    /// Both key and certificate: the identity they make.
    KeyAndCertificate,
}

impl TlsClientConfig {
    /// Tells which client identity the configuration asks for. A key
    /// without a certificate, or a certificate without a key, is an error.
    pub fn client_identity(&self) -> (res: Result<ClientIdentity, Error>)
        ensures
            match res {
                Ok(ClientIdentity::KeyAndCertificate) => self.client_key is Some
                    && self.client_certificate is Some,
                Ok(ClientIdentity::Anonymous) => self.client_key is None
                    && self.client_certificate is None,
                Err(e) => e == Error::IncompleteClientIdentity && (self.client_key is Some)
                    != (self.client_certificate is Some),
            },
    {
        match (&self.client_key, &self.client_certificate) {
            (Some(_), Some(_)) => Ok(ClientIdentity::KeyAndCertificate),
            (None, None) => Ok(ClientIdentity::Anonymous),
            _ => Err(Error::IncompleteClientIdentity),
        }
    }
}

/// The configuration of one outbound association.
#[derive(Debug, Clone, PartialEq, Eq)]
pub struct ClientConfig {
    /// The address of the server.
    pub address: String,
    /// The port of the server.
    pub port: u16,
    /// The local transport selector.
    pub local_t_sel: Vec<u8>,
    /// The remote transport selector.
    pub remote_t_sel: Vec<u8>,
    /// The TPDU size to ask for.
    pub tpdu_size: u32,
    /// The local session selector.
    pub local_s_sel: Vec<u8>,
    /// The remote session selector.
    pub remote_s_sel: Vec<u8>,
    /// The local presentation selector.
    pub local_p_sel: Vec<u8>,
    /// The remote presentation selector.
    pub remote_p_sel: Vec<u8>,
    /// The arcs of the local AP title.
    pub local_ap_title: Option<Vec<u32>>,
    /// The arcs of the remote AP title.
    pub remote_ap_title: Option<Vec<u32>>,
    /// The local AE qualifier.
    pub local_ae_qualifier: Option<u32>,
    /// The remote AE qualifier.
    pub remote_ae_qualifier: Option<u32>,
    /// The largest number of requests this side may have outstanding.
    pub max_serv_outstanding_calling: i16,
    /// The largest number of requests the peer may have outstanding.
    pub max_serv_outstanding_called: i16,
    /// The deepest nesting of data structures.
    pub data_structure_nesting_level: i8,
    /// The largest MMS PDU.
    pub max_pdu_size: i32,
    /// The TLS configuration, if TLS is to be used.
    pub tls: Option<TlsClientConfig>,
}

impl ClientConfig {
    /// Whether each of the six selectors has at most 16 bytes.
    pub open spec fn spec_selectors_fit(self) -> bool {
        &&& self.local_t_sel@.len() <= MAX_SELECTOR_SIZE
        &&& self.remote_t_sel@.len() <= MAX_SELECTOR_SIZE
        &&& self.local_s_sel@.len() <= MAX_SELECTOR_SIZE
        &&& self.remote_s_sel@.len() <= MAX_SELECTOR_SIZE
        &&& self.local_p_sel@.len() <= MAX_SELECTOR_SIZE
        &&& self.remote_p_sel@.len() <= MAX_SELECTOR_SIZE
    }

    /// Whether the TLS configuration, if there is one, names both a client
    /// key and a client certificate or neither.
    pub open spec fn spec_identity_complete(self) -> bool {
        self.tls matches Some(tls) ==> (tls.client_key is Some) == (tls.client_certificate is Some)
    }

    /// What is wrong with the configuration, if anything: a selector that is
    /// too long, else a largest PDU size below 64, else an incomplete client
    /// identity.
    pub open spec fn spec_error(self) -> Option<Error> {
        if !self.spec_selectors_fit() {
            Some(Error::SelectorTooLong)
        } else if self.max_pdu_size < MIN_PDU_SIZE {
            Some(Error::PduSizeTooSmall)
        } else if !self.spec_identity_complete() {
            Some(Error::IncompleteClientIdentity)
        } else {
            None
        }
    }

    /// Checks the configuration before anything is sent: no selector of
    /// more than 16 bytes, a largest PDU size of at least 64, and a client
    /// key exactly where there is a client certificate.
    pub fn check(&self) -> (res: Result<(), Error>)
        ensures
            match res {
                Ok(()) => self.spec_error() is None,
                Err(e) => self.spec_error() == Some(e),
            },
    {
        if self.local_t_sel.len() > MAX_SELECTOR_SIZE || self.remote_t_sel.len()
            > MAX_SELECTOR_SIZE || self.local_s_sel.len() > MAX_SELECTOR_SIZE
            || self.remote_s_sel.len() > MAX_SELECTOR_SIZE || self.local_p_sel.len()
            > MAX_SELECTOR_SIZE || self.remote_p_sel.len() > MAX_SELECTOR_SIZE {
            return Err(Error::SelectorTooLong);
        }
        if self.max_pdu_size < MIN_PDU_SIZE {
            return Err(Error::PduSizeTooSmall);
        }
        match &self.tls {
            Some(tls) => match tls.client_identity() {
                Ok(_) => Ok(()),
                Err(e) => Err(e),
            },
            None => Ok(()),
        }
    }
}

/// A configuration with a session selector of more than 16 bytes is
/// rejected, and so is one with any other selector of that length.
pub proof fn lemma_long_selector_is_rejected(config: ClientConfig)
    requires
        config.local_s_sel@.len() > 16 || config.remote_s_sel@.len() > 16
            || config.local_t_sel@.len() > 16 || config.remote_t_sel@.len() > 16
            || config.local_p_sel@.len() > 16 || config.remote_p_sel@.len() > 16,
    ensures
        config.spec_error() == Some(Error::SelectorTooLong),
{
}

impl Default for ClientConfig {
    /// The configuration for a server on this host at port 102, with the
    /// usual selectors and the largest TPDU size.
    fn default() -> (res: Self)
        ensures
            res.address@ == "localhost"@,
            res.port == 102,
            res.tpdu_size == COTP_MAX_TPDU_SIZE,
            res.local_t_sel@ == seq![0x00u8, 0x01u8],
            res.remote_t_sel@ == seq![0x00u8, 0x01u8],
            res.local_s_sel@ == seq![0x00u8, 0x01u8],
            res.remote_s_sel@ == seq![0x00u8, 0x01u8],
            res.local_p_sel@ == seq![0x00u8, 0x00u8, 0x00u8, 0x01u8],
            res.remote_p_sel@ == seq![0x00u8, 0x00u8, 0x00u8, 0x01u8],
            res.local_ap_title matches Some(t) && t@ == seq![1u32, 1u32, 1u32, 999u32],
            res.remote_ap_title matches Some(t) && t@ == seq![1u32, 1u32, 1u32, 999u32, 1u32],
            res.local_ae_qualifier == Some(12u32),
            res.remote_ae_qualifier == Some(12u32),
            res.max_serv_outstanding_calling == 10,
            res.max_serv_outstanding_called == 10,
            res.data_structure_nesting_level == 10,
            res.max_pdu_size == 8192,
            res.tls is None,
            res.spec_error() is None,
    {
        Self {
            address: "localhost".to_owned(),
            port: 102,
            tpdu_size: COTP_MAX_TPDU_SIZE,
            local_t_sel: vec![0x00, 0x01],
            remote_t_sel: vec![0x00, 0x01],
            local_s_sel: vec![0x00, 0x01],
            remote_s_sel: vec![0x00, 0x01],
            local_p_sel: vec![0x00, 0x00, 0x00, 0x01],
            remote_p_sel: vec![0x00, 0x00, 0x00, 0x01],
            local_ap_title: Some(vec![1, 1, 1, 999]),
            remote_ap_title: Some(vec![1, 1, 1, 999, 1]),
            local_ae_qualifier: Some(12),
            remote_ae_qualifier: Some(12),
            max_serv_outstanding_calling: 10,
            max_serv_outstanding_called: 10,
            data_structure_nesting_level: 10,
            max_pdu_size: 8192,
            tls: None,
        }
    }
}

} // verus!
