//! The MMS client: the initiate handshake, the correlation of confirmed
//! requests with their responses, paginated services, and the results of
//! read and write.
//!
//! The module decides; it neither encodes PDUs nor waits for them. A
//! driver hands it what arrived and carries out what it answers.

use vstd::prelude::*;
use vstd::string::StringSliceAdditionalSpecFns;
use vstd::utf8::encode_utf8;
use std::collections::HashMap;
use crate::mms::ClientConfig;
use crate::mms::acse::AcseError;
use crate::mms::codec::bit_string_bits;
use crate::mms::codec::graphic_string_check;
use crate::mms::codec::spec_bits;
use crate::mms::codec::spec_graphic;
use crate::mms::codec::spec_visible;
use crate::mms::codec::visible_string_check;

verus! {

broadcast use vstd::std_specs::hash::group_hash_axioms;

/// The MMS version that this client speaks.
pub const VERSION_NUMBER: i16 = 1;

/// The smallest PDU size that a peer may negotiate.
pub const MIN_PDU_SIZE: i32 = 64;

/// The number of bits of the parameter support options.
pub const PARAMETER_SUPPORT_BITS: usize = 11;

/// The number of bits of the service support options.
pub const SERVICE_SUPPORT_BITS: usize = 85;

/// The bytes of the parameter support options.
pub open spec fn spec_parameter_support_options() -> Seq<u8> {
    seq![0xf1u8, 0x00u8]
}

/// The bytes of the service support options.
pub open spec fn spec_service_support_options() -> Seq<u8> {
    seq![
        0xeeu8,
        0x1cu8,
        0x00u8,
        0x00u8,
        0x04u8,
        0x08u8,
        0x00u8,
        0x00u8,
        0x79u8,
        0xefu8,
        0x18u8,
    ]
}

/// What can go wrong in the MMS client.
#[derive(Debug, Clone, Copy, PartialEq, Eq, Structural)]
pub enum MmsClientError {
    /// A name holds a character that its string type does not allow.
    VisibleStringConversion,
    /// The server refused the access to a variable.
    DataAccessError { error: i64 },
    /// The request could not be handed to the dispatcher.
    SendRequest,
    /// The response channel was closed.
    ReceiveResponse,
    /// The association control failed.
    AcseLayer { source: AcseError },
    /// A response with another invoke id than the request.
    InvokeIdMismatch,
    /// Another PDU or service response than the exchange allows.
    UnexpectedServiceResponse,
    /// The negotiated PDU size is below the minimum.
    MinPduSizeExceeded,
    /// The peer negotiated more outstanding called services than proposed.
    MaxServOutstandingCalledExceeded,
    /// The peer negotiated more outstanding calling services than proposed.
    MaxServOutstandingCallingExceeded,
    /// The peer negotiated a deeper nesting level than proposed.
    DataStructureNestingLevelExceeded,
    /// The peer negotiated another version.
    VersionMismatch,
    /// A PDU could not be decoded.
    DecodeResponse,
    /// A PDU could not be encoded.
    EncodeRequest,
}

impl From<AcseError> for MmsClientError {
    fn from(error: AcseError) -> (res: MmsClientError) {
        MmsClientError::AcseLayer { source: error }
    }
}

impl vstd::std_specs::convert::FromSpecImpl<AcseError> for MmsClientError {
    open spec fn obeys_from_spec() -> bool {
        true
    }

    open spec fn from_spec(error: AcseError) -> MmsClientError {
        MmsClientError::AcseLayer { source: error }
    }
}

/// The bit string of a byte string, cut to `length` bits if it has more:
/// the bits of each byte in turn, the most significant first.
pub fn make_bitstring(data: &[u8], length: usize) -> (res: Vec<bool>)
    requires
        data@.len() <= usize::MAX / 64,
    ensures
        res@ == spec_bits(data@, length as nat),
{
    let mut bits: Vec<bool> = bit_string_bits(data);
    bits.truncate(length);
    assert(bits@ =~= spec_bits(data@, length as nat));
    bits
}

/// The initiate request, as far as it is set.
#[derive(Debug, Clone, PartialEq, Eq)]
pub struct InitiateRequestPdu {
    /// The largest PDU that this side accepts.
    pub local_detail_calling: Option<i32>,
    /// The proposed number of outstanding requests of this side.
    pub proposed_max_serv_outstanding_calling: i16,
    /// The proposed number of outstanding requests of the peer.
    pub proposed_max_serv_outstanding_called: i16,
    /// The proposed nesting level of data structures.
    pub proposed_data_structure_nesting_level: Option<i8>,
    /// The proposed version.
    pub proposed_version_number: i16,
    /// The bits of the proposed parameter support options.
    pub proposed_parameter_cbb: Vec<bool>,
    /// The bits of the services that this side supports.
    pub services_supported_calling: Vec<bool>,
}

/// The initiate response, as far as it is read.
#[derive(Debug, Clone, PartialEq, Eq)]
pub struct InitiateResponsePdu {
    /// The largest PDU that the peer accepts.
    pub local_detail_called: Option<i32>,
    /// The negotiated number of outstanding requests of this side.
    pub negotiated_max_serv_outstanding_calling: i16,
    /// The negotiated number of outstanding requests of the peer.
    pub negotiated_max_serv_outstanding_called: i16,
    /// The negotiated nesting level of data structures.
    pub negotiated_data_structure_nesting_level: Option<i8>,
    /// The negotiated version.
    pub negotiated_version_number: i16,
    /// The bits of the services that the peer supports.
    pub services_supported_called: Vec<bool>,
}

/// An MMS PDU as the client tells them apart. `R` is a confirmed service
/// response and `U` an information report; the client passes both on
/// without looking into them.
#[derive(Debug, Clone, PartialEq, Eq)]
pub enum MmsPdu<R, U> {
    /// The response to a confirmed request.
    ConfirmedResponse { invoke_id: u32, service: R },
    /// The error answer to a confirmed request.
    ConfirmedError { invoke_id: u32 },
    /// An unconfirmed information report.
    InformationReport(U),
    /// The rejection of a PDU, with the invoke id of the rejected request
    /// if the peer knew it.
    Reject { rejected_invoke_id: Option<u32> },
    /// The response to the initiate request.
    InitiateResponse(InitiateResponsePdu),
    /// The error answer to the initiate request.
    InitiateError,
    /// The request to conclude the association.
    ConcludeRequest,
    /// Any other PDU.
    Other,
}

/// What an association has negotiated. It holds for the lifetime of the
/// association.
#[derive(Debug, Clone, PartialEq, Eq)]
pub struct Association {
    /// The largest MMS PDU.
    pub max_pdu_size: i32,
    /// The number of requests that this side may have outstanding.
    pub max_serv_outstanding_calling: i16,
    /// The number of requests that the peer may have outstanding.
    pub max_serv_outstanding_called: i16,
    /// The deepest nesting of data structures.
    pub data_structure_nesting_level: i8,
    /// The bits of the services that the peer supports.
    pub services_supported: Vec<bool>,
}

/// Why an initiate response is refused, if it is: the first of the checks
/// on version, PDU size, the two windows and the nesting level that fails.
pub open spec fn spec_initiate_error(
    response: InitiateResponsePdu,
    config: ClientConfig,
) -> Option<MmsClientError> {
    if response.negotiated_version_number != VERSION_NUMBER {
        Some(MmsClientError::VersionMismatch)
    } else if response.local_detail_called matches Some(size) && size < MIN_PDU_SIZE {
        Some(MmsClientError::MinPduSizeExceeded)
    } else if response.negotiated_max_serv_outstanding_called
        > config.max_serv_outstanding_called {
        Some(MmsClientError::MaxServOutstandingCalledExceeded)
    } else if response.negotiated_max_serv_outstanding_calling
        > config.max_serv_outstanding_calling {
        Some(MmsClientError::MaxServOutstandingCallingExceeded)
    } else if response.negotiated_data_structure_nesting_level matches Some(level) && level
        > config.data_structure_nesting_level {
        Some(MmsClientError::DataStructureNestingLevelExceeded)
    } else {
        None
    }
}

/// The MMS client of one association.
#[derive(Debug, Clone, PartialEq, Eq)]
pub struct MmsClient {
    /// What the association has negotiated.
    pub association: Association,
}

impl MmsClient {
    /// The initiate request for a configuration: the configured PDU size,
    /// windows and nesting level, version 1, and the support options of
    /// this client cut to 11 and 85 bits.
    pub fn initiate_request(config: &ClientConfig) -> (res: InitiateRequestPdu)
        ensures
            res.local_detail_calling == Some(config.max_pdu_size),
            res.proposed_max_serv_outstanding_calling == config.max_serv_outstanding_calling,
            res.proposed_max_serv_outstanding_called == config.max_serv_outstanding_called,
            res.proposed_data_structure_nesting_level == Some(config.data_structure_nesting_level),
            res.proposed_version_number == VERSION_NUMBER,
            res.proposed_parameter_cbb@ == spec_bits(spec_parameter_support_options(), 11),
            res.services_supported_calling@ == spec_bits(spec_service_support_options(), 85),
            res.proposed_parameter_cbb@.len() == 11,
            res.services_supported_calling@.len() == 85,
    {
        let parameter_support_options: [u8; 2] = [0xf1, 0x00];
        let service_support_options: [u8; 11] = [
            0xee,
            0x1c,
            0x00,
            0x00,
            0x04,
            0x08,
            0x00,
            0x00,
            0x79,
            0xef,
            0x18,
        ];
        assert(parameter_support_options@ =~= spec_parameter_support_options());
        assert(service_support_options@ =~= spec_service_support_options());
        InitiateRequestPdu {
            local_detail_calling: Some(config.max_pdu_size),
            proposed_max_serv_outstanding_calling: config.max_serv_outstanding_calling,
            proposed_max_serv_outstanding_called: config.max_serv_outstanding_called,
            proposed_data_structure_nesting_level: Some(config.data_structure_nesting_level),
            proposed_version_number: VERSION_NUMBER,
            proposed_parameter_cbb: make_bitstring(
                parameter_support_options.as_slice(),
                PARAMETER_SUPPORT_BITS,
            ),
            services_supported_calling: make_bitstring(
                service_support_options.as_slice(),
                SERVICE_SUPPORT_BITS,
            ),
        }
    }

    /// Reads the answer to the initiate request. Only an initiate response
    /// that keeps version 1, a PDU size of at least 64, and windows and a
    /// nesting level within what was proposed opens the association; it
    /// then holds the negotiated values, and the proposed ones where the
    /// response names none.
    pub fn connect<R, U>(config: &ClientConfig, response: MmsPdu<R, U>) -> (res: Result<
        Self,
        MmsClientError,
    >)
        ensures
            match response {
                MmsPdu::InitiateResponse(r) => match spec_initiate_error(r, *config) {
                    Some(e) => res == Err::<Self, MmsClientError>(e),
                    None => {
                        &&& res matches Ok(client)
                        &&& client.association.max_pdu_size == match r.local_detail_called {
                            Some(size) => size,
                            None => config.max_pdu_size,
                        }
                        &&& client.association.max_serv_outstanding_calling
                            == r.negotiated_max_serv_outstanding_calling
                        &&& client.association.max_serv_outstanding_called
                            == r.negotiated_max_serv_outstanding_called
                        &&& client.association.data_structure_nesting_level
                            == match r.negotiated_data_structure_nesting_level {
                            Some(level) => level,
                            None => config.data_structure_nesting_level,
                        }
                        &&& client.association.services_supported == r.services_supported_called
                    },
                },
                _ => res == Err::<Self, MmsClientError>(MmsClientError::UnexpectedServiceResponse),
            },
    {
        let response: InitiateResponsePdu = match response {
            MmsPdu::InitiateResponse(r) => r,
            _ => {
                return Err(MmsClientError::UnexpectedServiceResponse);
            },
        };
        if response.negotiated_version_number != VERSION_NUMBER {
            return Err(MmsClientError::VersionMismatch);
        }
        let max_pdu_size: i32 = match response.local_detail_called {
            Some(size) => {
                if size < MIN_PDU_SIZE {
                    return Err(MmsClientError::MinPduSizeExceeded);
                }
                size
            },
            None => config.max_pdu_size,
        };
        if response.negotiated_max_serv_outstanding_called > config.max_serv_outstanding_called {
            return Err(MmsClientError::MaxServOutstandingCalledExceeded);
        }
        if response.negotiated_max_serv_outstanding_calling > config.max_serv_outstanding_calling {
            return Err(MmsClientError::MaxServOutstandingCallingExceeded);
        }
        let data_structure_nesting_level: i8 = match response.negotiated_data_structure_nesting_level {
            Some(level) => {
                if level > config.data_structure_nesting_level {
                    return Err(MmsClientError::DataStructureNestingLevelExceeded);
                }
                level
            },
            None => config.data_structure_nesting_level,
        };
        Ok(
            Self {
                association: Association {
                    max_pdu_size,
                    max_serv_outstanding_calling: response.negotiated_max_serv_outstanding_calling,
                    max_serv_outstanding_called: response.negotiated_max_serv_outstanding_called,
                    data_structure_nesting_level,
                    services_supported: response.services_supported_called,
                },
            },
        )
    }
}

/// An initiate response with a PDU size below 64 is refused, whatever else
/// it holds, unless the version is wrong, which is refused first.
pub proof fn lemma_small_pdu_size_is_refused(response: InitiateResponsePdu, config: ClientConfig)
    requires
        response.local_detail_called matches Some(size) && size < MIN_PDU_SIZE,
    ensures
        spec_initiate_error(response, config) == Some(MmsClientError::MinPduSizeExceeded)
            || spec_initiate_error(response, config) == Some(MmsClientError::VersionMismatch),
{
}

/// An initiate response that negotiates a larger window than proposed, or a
/// deeper nesting level, is refused.
pub proof fn lemma_exceeding_response_is_refused(response: InitiateResponsePdu, config: ClientConfig)
    requires
        response.negotiated_max_serv_outstanding_called > config.max_serv_outstanding_called
            || response.negotiated_max_serv_outstanding_calling
            > config.max_serv_outstanding_calling || (
        response.negotiated_data_structure_nesting_level matches Some(level) && level
            > config.data_structure_nesting_level),
    ensures
        spec_initiate_error(response, config) is Some,
{
}

/// What the dispatcher has to do after a PDU arrived. `W` is the waiter of
/// a request: whatever completes the call that made it.
#[derive(Debug, Clone, PartialEq, Eq)]
pub enum Action<W, R, U> {
    /// Hand the response to the waiter.
    Complete { waiter: W, response: R },
    /// Close the waiter without a response.
    Drop { waiter: W },
    /// Hand the report to the report callback.
    Report(U),
    /// Nothing but a log entry.
    Ignore,
}

/// The ghost model of the dispatcher: the waiters by invoke id and the
/// number of requests sent so far.
pub struct HandlerView<W> {
    /// The waiters of the requests that have no answer yet.
    pub waiters: Map<u32, W>,
    /// The number of requests sent; the next invoke id while it fits.
    pub sent: nat,
}

/// What the wire and the request queue do to the dispatcher, seen without
/// the payloads.
pub enum Event<W> {
    /// A request was sent for this waiter.
    Sent(W),
    /// A confirmed response with this invoke id arrived.
    Response(u32),
    /// A confirmed error with this invoke id arrived.
    Error(u32),
    /// A reject PDU arrived, with the invoke id it names.
    Reject(Option<u32>),
    /// Anything else arrived.
    Other,
}

/// Which waiter an event releases, and how.
pub enum Release<W> {
    /// The waiter gets the response with this invoke id.
    Completed { waiter: W, invoke_id: u32 },
    /// The waiter of this invoke id is closed.
    Dropped { waiter: W, invoke_id: u32 },
    /// No waiter is released.
    Nobody,
}

impl<W> HandlerView<W> {
    /// The dispatcher of a fresh association.
    pub open spec fn init() -> HandlerView<W> {
        HandlerView { waiters: Map::empty(), sent: 0 }
    }

    /// Every waiter belongs to a request that was sent, and the waiters are
    /// finitely many.
    pub open spec fn wf(self) -> bool {
        &&& self.waiters.dom().finite()
        &&& forall|id: u32| self.waiters.contains_key(id) ==> id < self.sent
    }

    /// The dispatcher after an event. A sent request takes the next invoke
    /// id, as long as one is left. A response, an error and a reject that
    /// names an invoke id take the waiter of that invoke id away.
    pub open spec fn step(self, event: Event<W>) -> HandlerView<W> {
        match event {
            Event::Sent(waiter) => if self.sent <= u32::MAX {
                HandlerView {
                    waiters: self.waiters.insert(self.sent as u32, waiter),
                    sent: self.sent + 1,
                }
            } else {
                self
            },
            Event::Response(id) => HandlerView { waiters: self.waiters.remove(id), ..self },
            Event::Error(id) => HandlerView { waiters: self.waiters.remove(id), ..self },
            Event::Reject(Some(id)) => HandlerView { waiters: self.waiters.remove(id), ..self },
            Event::Reject(None) => self,
            Event::Other => self,
        }
    }

    /// The waiter that an event releases.
    pub open spec fn release(self, event: Event<W>) -> Release<W> {
        match event {
            Event::Response(id) => if self.waiters.contains_key(id) {
                Release::Completed { waiter: self.waiters[id], invoke_id: id }
            } else {
                Release::Nobody
            },
            Event::Error(id) => if self.waiters.contains_key(id) {
                Release::Dropped { waiter: self.waiters[id], invoke_id: id }
            } else {
                Release::Nobody
            },
            Event::Reject(Some(id)) => if self.waiters.contains_key(id) {
                Release::Dropped { waiter: self.waiters[id], invoke_id: id }
            } else {
                Release::Nobody
            },
            _ => Release::Nobody,
        }
    }

    /// The dispatcher after a run of events, from a fresh association.
    pub open spec fn run(events: Seq<Event<W>>) -> HandlerView<W>
        decreases events.len(),
    {
        if events.len() == 0 {
            Self::init()
        } else {
            Self::run(events.drop_last()).step(events.last())
        }
    }
}

/// The waiters of the requests that a run of events sent, in the order of
/// their invoke ids.
pub open spec fn spec_sent_waiters<W>(events: Seq<Event<W>>) -> Seq<W>
    decreases events.len(),
{
    if events.len() == 0 {
        Seq::empty()
    } else {
        let before = spec_sent_waiters(events.drop_last());
        match events.last() {
            Event::Sent(waiter) => if before.len() <= u32::MAX {
                before.push(waiter)
            } else {
                before
            },
            _ => before,
        }
    }
}

/// The event that a PDU is to the dispatcher.
pub open spec fn spec_event<W, R, U>(pdu: MmsPdu<R, U>) -> Event<W> {
    match pdu {
        MmsPdu::ConfirmedResponse { invoke_id, .. } => Event::Response(invoke_id),
        MmsPdu::ConfirmedError { invoke_id } => Event::Error(invoke_id),
        MmsPdu::Reject { rejected_invoke_id } => Event::Reject(rejected_invoke_id),
        _ => Event::Other,
    }
}

/// The dispatcher of one association: it gives each request its invoke id
/// and finds the waiter of each answer.
pub struct ConnectionHandler<W> {
    /// The waiters of the requests that have no answer yet, by invoke id.
    pub response_map: HashMap<u32, W>,
    /// The number of requests sent so far.
    pub sent: u64,
}

impl<W> View for ConnectionHandler<W> {
    type V = HandlerView<W>;

    open spec fn view(&self) -> HandlerView<W> {
        HandlerView { waiters: self.response_map@, sent: self.sent as nat }
    }
}

impl<W> ConnectionHandler<W> {
    /// The dispatcher of a fresh association: no waiter, invoke id 0 next.
    pub fn new() -> (res: Self)
        ensures
            res@ == HandlerView::<W>::init(),
            res@.wf(),
    {
        Self { response_map: HashMap::new(), sent: 0 }
    }

    /// The invoke id for the next request, or none when all 32-bit invoke
    /// ids have been used.
    pub fn next_invoke_id(&self) -> (res: Option<u32>)
        ensures
            match res {
                Some(id) => id == self@.sent && !(self@.wf() && self@.waiters.contains_key(id)),
                None => self@.sent > u32::MAX,
            },
    {
        if self.sent <= 0xffff_ffff {
            Some(self.sent as u32)
        } else {
            None
        }
    }

    /// Records that a request was sent with the next invoke id, and keeps
    /// its waiter until the answer arrives. When no invoke id is left the
    /// waiter comes back, to be closed.
    pub fn request_sent(&mut self, waiter: W) -> (res: Option<W>)
        requires
            old(self)@.wf(),
        ensures
            final(self)@ == old(self)@.step(Event::Sent(waiter)),
            final(self)@.wf(),
            match res {
                Some(w) => w == waiter && old(self)@.sent > u32::MAX,
                None => old(self)@.sent <= u32::MAX,
            },
    {
        if self.sent > 0xffff_ffff {
            return Some(waiter);
        }
        let invoke_id: u32 = self.sent as u32;
        self.response_map.insert(invoke_id, waiter);
        self.sent = self.sent + 1;
        None
    }

    /// Takes a received PDU and says what to do. A confirmed response goes
    /// to the waiter of its invoke id; a confirmed error, and a reject that
    /// names an invoke id, close that waiter; a report goes to the report
    /// callback. Without a waiter, and for every other PDU, nothing is to
    /// be done.
    pub fn handle_pdu<R, U>(&mut self, pdu: MmsPdu<R, U>) -> (res: Action<W, R, U>)
        requires
            old(self)@.wf(),
        ensures
            final(self)@ == old(self)@.step(spec_event(pdu)),
            final(self)@.wf(),
            match pdu {
                MmsPdu::ConfirmedResponse { invoke_id, service } => if old(
                    self,
                )@.waiters.contains_key(invoke_id) {
                    res == (Action::<W, R, U>::Complete {
                        waiter: old(self)@.waiters[invoke_id],
                        response: service,
                    })
                } else {
                    res == Action::<W, R, U>::Ignore
                },
                MmsPdu::ConfirmedError { invoke_id } => if old(self)@.waiters.contains_key(
                    invoke_id,
                ) {
                    res == Action::<W, R, U>::Drop { waiter: old(self)@.waiters[invoke_id] }
                } else {
                    res == Action::<W, R, U>::Ignore
                },
                MmsPdu::Reject { rejected_invoke_id: Some(invoke_id) } => if old(
                    self,
                )@.waiters.contains_key(invoke_id) {
                    res == Action::<W, R, U>::Drop { waiter: old(self)@.waiters[invoke_id] }
                } else {
                    res == Action::<W, R, U>::Ignore
                },
                MmsPdu::InformationReport(report) => res == Action::<W, R, U>::Report(report),
                _ => res == Action::<W, R, U>::Ignore,
            },
    {
        match pdu {
            MmsPdu::ConfirmedResponse { invoke_id, service } => {
                match self.handle_confirmed_response(invoke_id) {
                    Some(waiter) => Action::Complete { waiter, response: service },
                    None => Action::Ignore,
                }
            },
            MmsPdu::ConfirmedError { invoke_id } => match self.handle_confirmed_error(invoke_id) {
                Some(waiter) => Action::Drop { waiter },
                None => Action::Ignore,
            },
            MmsPdu::InformationReport(report) => Action::Report(report),
            MmsPdu::Reject { rejected_invoke_id } => match self.handle_rejected_pdu(
                rejected_invoke_id,
            ) {
                Some(waiter) => Action::Drop { waiter },
                None => Action::Ignore,
            },
            _ => Action::Ignore,
        }
    }

    /// Takes the waiter of a confirmed response out of the dispatcher.
    pub fn handle_confirmed_response(&mut self, invoke_id: u32) -> (res: Option<W>)
        requires
            old(self)@.wf(),
        ensures
            final(self)@ == old(self)@.step(Event::Response(invoke_id)),
            final(self)@.wf(),
            match res {
                Some(waiter) => old(self)@.waiters.contains_key(invoke_id) && waiter == old(
                    self,
                )@.waiters[invoke_id],
                None => !old(self)@.waiters.contains_key(invoke_id),
            },
    {
        self.response_map.remove(&invoke_id)
    }

    /// Takes the waiter of a confirmed error out of the dispatcher.
    pub fn handle_confirmed_error(&mut self, invoke_id: u32) -> (res: Option<W>)
        requires
            old(self)@.wf(),
        ensures
            final(self)@ == old(self)@.step(Event::Error(invoke_id)),
            final(self)@.wf(),
            match res {
                Some(waiter) => old(self)@.waiters.contains_key(invoke_id) && waiter == old(
                    self,
                )@.waiters[invoke_id],
                None => !old(self)@.waiters.contains_key(invoke_id),
            },
    {
        self.response_map.remove(&invoke_id)
    }

    /// Takes the waiter that a reject PDU names, if it names one, out of
    /// the dispatcher.
    pub fn handle_rejected_pdu(&mut self, rejected_invoke_id: Option<u32>) -> (res: Option<W>)
        requires
            old(self)@.wf(),
        ensures
            final(self)@ == old(self)@.step(Event::Reject(rejected_invoke_id)),
            final(self)@.wf(),
            match res {
                Some(waiter) => rejected_invoke_id matches Some(id) && old(
                    self,
                )@.waiters.contains_key(id) && waiter == old(self)@.waiters[id],
                None => rejected_invoke_id matches Some(id) ==> !old(self)@.waiters.contains_key(
                    id,
                ),
            },
    {
        match rejected_invoke_id {
            Some(invoke_id) => self.response_map.remove(&invoke_id),
            None => None,
        }
    }

    /// The number of requests that have no answer yet.
    pub fn outstanding(&self) -> (res: usize)
        ensures
            res == self@.waiters.len(),
    {
        self.response_map.len()
    }
}

/// After any run of events the dispatcher is well formed, it has counted
/// the requests sent, and each waiter it holds is the one that was
/// registered when its invoke id was given out.
pub proof fn lemma_run_invariant<W>(events: Seq<Event<W>>)
    ensures
        HandlerView::run(events).wf(),
        HandlerView::run(events).sent == spec_sent_waiters(events).len(),
        forall|id: u32| #[trigger]
            HandlerView::run(events).waiters.contains_key(id) ==> id < spec_sent_waiters(
                events,
            ).len() && HandlerView::run(events).waiters[id] == spec_sent_waiters(events)[id as int],
    decreases events.len(),
{
    if events.len() > 0 {
        lemma_run_invariant(events.drop_last());
    }
}

/// Sending requests never changes which waiter an invoke id belongs to:
/// the waiters sent so far stay a prefix.
pub proof fn lemma_sent_waiters_grow<W>(events: Seq<Event<W>>, n: int)
    requires
        0 <= n <= events.len(),
    ensures
        spec_sent_waiters(events.take(n)).len() <= spec_sent_waiters(events).len(),
        forall|i: int|
            0 <= i < spec_sent_waiters(events.take(n)).len() ==> #[trigger] spec_sent_waiters(
                events.take(n),
            )[i] == spec_sent_waiters(events)[i],
    decreases events.len() - n,
{
    if n == events.len() {
        assert(events.take(n) == events);
    } else {
        lemma_sent_waiters_grow(events, n + 1);
        let shorter = spec_sent_waiters(events.take(n));
        let longer = spec_sent_waiters(events.take(n + 1));
        assert(events.take(n + 1).drop_last() == events.take(n));
        assert(longer == shorter || exists|w: W| longer == shorter.push(w));
        assert forall|i: int| 0 <= i < shorter.len() implies #[trigger] shorter[i]
            == spec_sent_waiters(events)[i] by {
            assert(shorter[i] == longer[i]);
        }
    }
}

/// Dispatcher correlation: whatever arrived before, in whatever order, a
/// confirmed response is handed to the waiter of the request that was sent
/// with its invoke id, and to nobody else; and once it was handed over, the
/// invoke id has no waiter any more, so that no second response reaches it.
pub proof fn lemma_dispatcher_correlation<W>(events: Seq<Event<W>>, invoke_id: u32)
    ensures
        match HandlerView::run(events).release(Event::Response(invoke_id)) {
            Release::Completed { waiter, invoke_id: id } => {
                &&& id == invoke_id
                &&& invoke_id < spec_sent_waiters(events).len()
                &&& waiter == spec_sent_waiters(events)[invoke_id as int]
            },
            Release::Dropped { .. } => false,
            Release::Nobody => true,
        },
        HandlerView::run(events.push(Event::Response(invoke_id))).release(
            Event::Response(invoke_id),
        ) == Release::<W>::Nobody,
{
    lemma_run_invariant(events);
    let after = events.push(Event::Response(invoke_id));
    assert(after.drop_last() == events);
}

/// No invoke id is given out twice: the request that is sent after a run of
/// events gets an invoke id that no earlier request of the run had.
pub proof fn lemma_invoke_ids_are_fresh<W>(events: Seq<Event<W>>, waiter: W)
    requires
        spec_sent_waiters(events).len() <= u32::MAX,
    ensures
        !HandlerView::run(events).waiters.contains_key(HandlerView::run(events).sent as u32),
        HandlerView::run(events.push(Event::Sent(waiter))).sent == HandlerView::run(events).sent
            + 1,
        spec_sent_waiters(events.push(Event::Sent(waiter))) == spec_sent_waiters(events).push(
            waiter,
        ),
{
    lemma_run_invariant(events);
    let after = events.push(Event::Sent(waiter));
    assert(after.drop_last() == events);
}

/// The result of the access to one variable.
#[derive(Debug, Clone, PartialEq, Eq)]
pub enum AccessResult<D> {
    /// The server refused the access, with this error code.
    Failure(i64),
    /// The server gave the data.
    Success(D),
}

/// The error code of the first refused access, if there is one.
pub open spec fn spec_first_failure<D>(results: Seq<AccessResult<D>>) -> Option<i64>
    decreases results.len(),
{
    if results.len() == 0 {
        None
    } else {
        match results[0] {
            AccessResult::Failure(error) => Some(error),
            AccessResult::Success(_) => spec_first_failure(results.drop_first()),
        }
    }
}

/// The data of the accesses that succeeded, in the order of the results.
pub open spec fn spec_successes<D>(results: Seq<AccessResult<D>>) -> Seq<D>
    decreases results.len(),
{
    if results.len() == 0 {
        Seq::empty()
    } else {
        match results[0] {
            AccessResult::Failure(_) => spec_successes(results.drop_first()),
            AccessResult::Success(data) => seq![data] + spec_successes(results.drop_first()),
        }
    }
}

/// Without a refused access every result is a success, and the data are as
/// many as the results and stand in their order.
pub proof fn lemma_all_successes<D>(results: Seq<AccessResult<D>>)
    requires
        spec_first_failure(results) is None,
    ensures
        spec_successes(results).len() == results.len(),
        forall|i: int|
            0 <= i < results.len() ==> #[trigger] results[i] == AccessResult::Success(
                spec_successes(results)[i],
            ),
    decreases results.len(),
{
    if results.len() > 0 {
        let tail = results.drop_first();
        lemma_all_successes(tail);
        assert forall|i: int| 0 <= i < results.len() implies #[trigger] results[i]
            == AccessResult::Success(spec_successes(results)[i]) by {
            if i > 0 {
                assert(results[i] == tail[i - 1]);
                assert(spec_successes(results)[i] == spec_successes(tail)[i - 1]);
            }
        }
    }
}

/// The first refused access is the first result that is no success.
pub proof fn lemma_first_failure<D>(results: Seq<AccessResult<D>>)
    ensures
        match spec_first_failure(results) {
            Some(error) => exists|k: int|
                {
                    &&& 0 <= k < results.len()
                    &&& #[trigger] results[k] == AccessResult::<D>::Failure(error)
                    &&& forall|j: int| 0 <= j < k ==> (#[trigger] results[j]) is Success
                },
            None => forall|j: int| 0 <= j < results.len() ==> (#[trigger] results[j]) is Success,
        },
    decreases results.len(),
{
    if results.len() > 0 {
        let tail = results.drop_first();
        lemma_first_failure(tail);
        match results[0] {
            AccessResult::Failure(error) => {
                assert(results[0] == AccessResult::<D>::Failure(error));
            },
            AccessResult::Success(_) => {
                match spec_first_failure(tail) {
                    Some(error) => {
                        let k = choose|k: int|
                            {
                                &&& 0 <= k < tail.len()
                                &&& #[trigger] tail[k] == AccessResult::<D>::Failure(error)
                                &&& forall|j: int| 0 <= j < k ==> (#[trigger] tail[j]) is Success
                            };
                        assert(results[k + 1] == tail[k]);
                        assert forall|j: int| 0 <= j < k + 1 implies (
                        #[trigger] results[j]) is Success by {
                            if j > 0 {
                                assert(results[j] == tail[j - 1]);
                            }
                        }
                    },
                    None => {
                        assert forall|j: int| 0 <= j < results.len() implies (
                        #[trigger] results[j]) is Success by {
                            if j > 0 {
                                assert(results[j] == tail[j - 1]);
                            }
                        }
                    },
                }
            },
        }
    }
}

impl MmsClient {
    /// The result of a read: the data of all variables in the order of the
    /// response, or the error of the first variable that the server
    /// refused. `None` stands for a response to another service.
    #[verifier::loop_isolation(false)]
    pub fn read<D>(response: Option<Vec<AccessResult<D>>>) -> (res: Result<Vec<D>, MmsClientError>)
        ensures
            match response {
                None => res == Err::<Vec<D>, MmsClientError>(
                    MmsClientError::UnexpectedServiceResponse,
                ),
                Some(results) => match spec_first_failure(results@) {
                    Some(error) => res == Err::<Vec<D>, MmsClientError>(
                        MmsClientError::DataAccessError { error },
                    ),
                    None => res matches Ok(data) && data@ == spec_successes(results@),
                },
            },
    {
        let results: Vec<AccessResult<D>> = match response {
            Some(results) => results,
            None => {
                return Err(MmsClientError::UnexpectedServiceResponse);
            },
        };
        let ghost all = results@;
        let mut data: Vec<D> = Vec::new();
        assert(all.skip(0) == all);
        assert(Seq::<D>::empty() + spec_successes(all) == spec_successes(all));
        for item in it: results.into_iter()
            invariant
                it.seq() == all,
                spec_first_failure(all) == spec_first_failure(all.skip(it.index() as int)),
                spec_successes(all) == data@ + spec_successes(all.skip(it.index() as int)),
        {
            let ghost rest = all.skip(it.index() as int);
            let ghost gathered = data@;
            proof {
                assert(rest[0] == item);
                assert(rest.drop_first() == all.skip(it.index() + 1));
            }
            match item {
                AccessResult::Success(value) => {
                    data.push(value);
                    proof {
                        let tail = spec_successes(rest.drop_first());
                        assert(gathered + (seq![value] + tail) == gathered.push(value) + tail);
                    }
                },
                AccessResult::Failure(error) => {
                    return Err(MmsClientError::DataAccessError { error });
                },
            }
        }
        assert(all.skip(all.len() as int) == Seq::<AccessResult<D>>::empty());
        assert(data@ + Seq::<D>::empty() == data@);
        Ok(data)
    }
}

/// The result of writing one variable.
#[derive(Debug, Clone, Copy, PartialEq, Eq, Structural)]
pub enum WriteResult {
    /// The server refused the access, with this error code.
    Failure(i64),
    /// The variable was written.
    Success,
}

/// The error code of the first refused write, if there is one.
pub open spec fn spec_first_write_failure(results: Seq<WriteResult>) -> Option<i64>
    decreases results.len(),
{
    if results.len() == 0 {
        None
    } else {
        match results[0] {
            WriteResult::Failure(error) => Some(error),
            WriteResult::Success => spec_first_write_failure(results.drop_first()),
        }
    }
}

/// What a response gives when only its service matters: itself, and an
/// error when the response belongs to another service.
pub open spec fn spec_expected<A>(response: Option<A>) -> Result<A, MmsClientError> {
    match response {
        Some(a) => Ok(a),
        None => Err(MmsClientError::UnexpectedServiceResponse),
    }
}

/// Whether every segment of a file name may stand in a GraphicString.
pub open spec fn spec_file_name_ok(file_name: Seq<String>) -> bool {
    forall|i: int|
        0 <= i < file_name.len() ==> spec_graphic(encode_utf8((#[trigger] file_name[i])@))
}

/// Checks that a name may stand in an MMS identifier, a VisibleString:
/// every byte of it in 0x20..=0x7E.
pub fn check_identifier(name: &str) -> (res: Result<(), MmsClientError>)
    ensures
        res is Ok <==> spec_visible(encode_utf8(name@)),
        res is Err ==> res == Err::<(), MmsClientError>(MmsClientError::VisibleStringConversion),
{
    match visible_string_check(name.as_bytes()) {
        Ok(()) => Ok(()),
        Err(_) => Err(MmsClientError::VisibleStringConversion),
    }
}

/// Checks that every segment of a file name may stand in a GraphicString.
pub fn check_file_name(file_name: &Vec<String>) -> (res: Result<(), MmsClientError>)
    ensures
        res is Ok <==> spec_file_name_ok(file_name@),
        res is Err ==> res == Err::<(), MmsClientError>(MmsClientError::VisibleStringConversion),
{
    let mut i: usize = 0;
    while i < file_name.len()
        invariant
            i <= file_name@.len(),
            forall|j: int|
                0 <= j < i ==> spec_graphic(encode_utf8((#[trigger] file_name@[j])@)),
        decreases file_name@.len() - i,
    {
        match graphic_string_check(file_name[i].as_str().as_bytes()) {
            Ok(()) => {},
            Err(_) => {
                return Err(MmsClientError::VisibleStringConversion);
            },
        }
        i = i + 1;
    }
    Ok(())
}

impl MmsClient {
    /// The result of a write: done, or the error of the first variable
    /// that the server refused. `None` stands for a response to another
    /// service.
    #[verifier::loop_isolation(false)]
    pub fn write(response: Option<Vec<WriteResult>>) -> (res: Result<(), MmsClientError>)
        ensures
            match response {
                None => res == Err::<(), MmsClientError>(
                    MmsClientError::UnexpectedServiceResponse,
                ),
                Some(results) => match spec_first_write_failure(results@) {
                    Some(error) => res == Err::<(), MmsClientError>(
                        MmsClientError::DataAccessError { error },
                    ),
                    None => res is Ok,
                },
            },
    {
        let results: Vec<WriteResult> = match response {
            Some(results) => results,
            None => {
                return Err(MmsClientError::UnexpectedServiceResponse);
            },
        };
        let mut i: usize = 0;
        assert(results@.skip(0) == results@);
        while i < results.len()
            invariant
                i <= results@.len(),
                spec_first_write_failure(results@) == spec_first_write_failure(
                    results@.skip(i as int),
                ),
            decreases results@.len() - i,
        {
            proof {
                let rest = results@.skip(i as int);
                assert(rest[0] == results@[i as int]);
                assert(rest.drop_first() == results@.skip(i + 1));
            }
            match results[i] {
                WriteResult::Success => {},
                WriteResult::Failure(error) => {
                    return Err(MmsClientError::DataAccessError { error });
                },
            }
            i = i + 1;
        }
        Ok(())
    }

    /// The attributes of a variable, passed on from the response. `None`
    /// stands for a response to another service.
    pub fn get_variable_access_attributes<A>(response: Option<A>) -> (res: Result<
        A,
        MmsClientError,
    >)
        ensures
            res == spec_expected(response),
    {
        match response {
            Some(a) => Ok(a),
            None => Err(MmsClientError::UnexpectedServiceResponse),
        }
    }

    /// The outcome of defining a named variable list: `acknowledged` tells
    /// whether the response belongs to that service.
    pub fn define_named_variable_list(acknowledged: bool) -> (res: Result<(), MmsClientError>)
        ensures
            acknowledged ==> res is Ok,
            !acknowledged ==> res == Err::<(), MmsClientError>(
                MmsClientError::UnexpectedServiceResponse,
            ),
    {
        if acknowledged {
            Ok(())
        } else {
            Err(MmsClientError::UnexpectedServiceResponse)
        }
    }

    /// The attributes of a named variable list, passed on from the
    /// response. `None` stands for a response to another service.
    pub fn get_named_variable_list_attributes<A>(response: Option<A>) -> (res: Result<
        A,
        MmsClientError,
    >)
        ensures
            res == spec_expected(response),
    {
        match response {
            Some(a) => Ok(a),
            None => Err(MmsClientError::UnexpectedServiceResponse),
        }
    }

    /// Checks the domain name of a request to delete named variable lists:
    /// if there is one, it must be an identifier.
    pub fn delete_named_variable_list_request(domain_name: &Option<String>) -> (res: Result<
        (),
        MmsClientError,
    >)
        ensures
            res is Ok <==> (domain_name matches Some(name) ==> spec_visible(
                encode_utf8(name@),
            )),
            res is Err ==> res == Err::<(), MmsClientError>(
                MmsClientError::VisibleStringConversion,
            ),
    {
        match domain_name {
            Some(name) => check_identifier(name.as_str()),
            None => Ok(()),
        }
    }

    /// The counts of a deletion of named variable lists, passed on from
    /// the response. `None` stands for a response to another service.
    pub fn delete_named_variable_list<A>(response: Option<A>) -> (res: Result<A, MmsClientError>)
        ensures
            res == spec_expected(response),
    {
        match response {
            Some(a) => Ok(a),
            None => Err(MmsClientError::UnexpectedServiceResponse),
        }
    }

    /// Checks the file name of a request to open a file and gives the
    /// position to start at: the asked one, or 0.
    pub fn file_open_request(file_name: &Vec<String>, initial_position: Option<u32>) -> (res:
        Result<u32, MmsClientError>)
        ensures
            match res {
                Ok(position) => spec_file_name_ok(file_name@) && position == match initial_position {
                    Some(p) => p,
                    None => 0,
                },
                Err(e) => !spec_file_name_ok(file_name@) && e
                    == MmsClientError::VisibleStringConversion,
            },
    {
        match check_file_name(file_name) {
            Ok(()) => Ok(
                match initial_position {
                    Some(p) => p,
                    None => 0,
                },
            ),
            Err(e) => Err(e),
        }
    }

    /// The handle and attributes of an opened file, passed on from the
    /// response. `None` stands for a response to another service.
    pub fn file_open<A>(response: Option<A>) -> (res: Result<A, MmsClientError>)
        ensures
            res == spec_expected(response),
    {
        match response {
            Some(a) => Ok(a),
            None => Err(MmsClientError::UnexpectedServiceResponse),
        }
    }

    /// The outcome of closing a file: `acknowledged` tells whether the
    /// response belongs to that service.
    pub fn file_close(acknowledged: bool) -> (res: Result<(), MmsClientError>)
        ensures
            acknowledged ==> res is Ok,
            !acknowledged ==> res == Err::<(), MmsClientError>(
                MmsClientError::UnexpectedServiceResponse,
            ),
    {
        if acknowledged {
            Ok(())
        } else {
            Err(MmsClientError::UnexpectedServiceResponse)
        }
    }

    /// Checks the file name of a request to delete a file.
    pub fn file_delete_request(file_name: &Vec<String>) -> (res: Result<(), MmsClientError>)
        ensures
            res is Ok <==> spec_file_name_ok(file_name@),
            res is Err ==> res == Err::<(), MmsClientError>(
                MmsClientError::VisibleStringConversion,
            ),
    {
        check_file_name(file_name)
    }

    /// The outcome of deleting a file: `acknowledged` tells whether the
    /// response belongs to that service.
    pub fn file_delete(acknowledged: bool) -> (res: Result<(), MmsClientError>)
        ensures
            acknowledged ==> res is Ok,
            !acknowledged ==> res == Err::<(), MmsClientError>(
                MmsClientError::UnexpectedServiceResponse,
            ),
    {
        if acknowledged {
            Ok(())
        } else {
            Err(MmsClientError::UnexpectedServiceResponse)
        }
    }

    /// Checks the file specification of a request for a directory: if
    /// there is one, it must be a file name.
    pub fn file_directory_request(file_specification: &Option<Vec<String>>) -> (res: Result<
        (),
        MmsClientError,
    >)
        ensures
            res is Ok <==> (file_specification matches Some(names) ==> spec_file_name_ok(names@)),
            res is Err ==> res == Err::<(), MmsClientError>(
                MmsClientError::VisibleStringConversion,
            ),
    {
        match file_specification {
            Some(names) => check_file_name(names),
            None => Ok(()),
        }
    }
}

/// The ghost model of a paginated request in progress.
pub struct PagerView<T> {
    /// The items of all pages so far, in order.
    pub items: Seq<T>,
    /// The last item of the last page, if that page had one: where the next
    /// request continues.
    pub continue_after: Option<T>,
    /// Whether the server announced more.
    pub more_follows: bool,
}

impl<T> PagerView<T> {
    /// Before the first request: nothing gathered, nothing to continue
    /// after, and a first page to ask for.
    pub open spec fn init() -> PagerView<T> {
        PagerView { items: Seq::empty(), continue_after: None, more_follows: true }
    }

    /// After one more page.
    pub open spec fn accept(self, page: Seq<T>, more_follows: bool) -> PagerView<T> {
        PagerView {
            items: self.items + page,
            continue_after: if page.len() > 0 {
                Some(page.last())
            } else {
                None
            },
            more_follows,
        }
    }
}

/// One page of a paginated response: its items and whether more follow.
pub struct Page<T> {
    /// The items of the page.
    pub items: Vec<T>,
    /// Whether the server announced more.
    pub more_follows: bool,
}

/// What pages give when they are asked for one after the other until a
/// page announces no more: the items of the first pages up to and
/// including that page, in order. Pages after it are never asked for.
pub open spec fn spec_collect<T>(pages: Seq<Page<T>>) -> Seq<T>
    decreases pages.len(),
{
    if pages.len() == 0 {
        Seq::empty()
    } else if pages[0].more_follows {
        pages[0].items@ + spec_collect(pages.drop_first())
    } else {
        pages[0].items@
    }
}

/// The number of pages that are asked for: all up to and including the
/// first that announces no more.
pub open spec fn spec_requests<T>(pages: Seq<Page<T>>) -> nat
    decreases pages.len(),
{
    if pages.len() == 0 {
        0
    } else if pages[0].more_follows {
        1 + spec_requests(pages.drop_first())
    } else {
        1
    }
}

/// A paginated request in progress: it gathers the pages and knows where
/// the next request continues.
#[derive(Debug, Clone, PartialEq, Eq)]
pub struct Pager<T> {
    /// The items of all pages so far.
    pub items: Vec<T>,
    /// The number of items of the last page.
    pub last_page: usize,
    /// Whether the server announced more.
    pub more_follows: bool,
}

impl<T> View for Pager<T> {
    type V = PagerView<T>;

    open spec fn view(&self) -> PagerView<T> {
        PagerView {
            items: self.items@,
            continue_after: if self.last_page > 0 && self.items@.len() > 0 {
                Some(self.items@.last())
            } else {
                None
            },
            more_follows: self.more_follows,
        }
    }
}

impl<T> Pager<T> {
    /// Starts a paginated request.
    pub fn new() -> (res: Self)
        ensures
            res@ == PagerView::<T>::init(),
    {
        Self { items: Vec::new(), last_page: 0, more_follows: true }
    }

    /// Whether another page is to be asked for.
    pub fn more_follows(&self) -> (res: bool)
        ensures
            res == self@.more_follows,
    {
        self.more_follows
    }

    /// The item after which the next request continues: the last item of
    /// the last page, if that page had one.
    pub fn continue_after(&self) -> (res: Option<&T>)
        ensures
            match res {
                Some(item) => self@.continue_after == Some(*item),
                None => self@.continue_after is None,
            },
    {
        if self.last_page > 0 && self.items.len() > 0 {
            Some(&self.items[self.items.len() - 1])
        } else {
            None
        }
    }

    /// Takes the next page: its items are appended, and it decides whether
    /// another page is to be asked for.
    pub fn accept(&mut self, page: Vec<T>, more_follows: bool)
        ensures
            final(self)@ == old(self)@.accept(page@, more_follows),
    {
        let mut page = page;
        self.last_page = page.len();
        self.items.append(&mut page);
        self.more_follows = more_follows;
    }

    /// Ends the request and gives the items of all pages.
    pub fn into_items(self) -> (res: Vec<T>)
        ensures
            res@ == self@.items,
    {
        self.items
    }
}

/// Runs a paginated request against pages that are ready: asks for one
/// after the other until a page announces no more, and gives the items of
/// the pages asked for, in order.
#[verifier::loop_isolation(false)]
pub fn collect_pages<T>(pages: Vec<Page<T>>) -> (res: Vec<T>)
    ensures
        res@ == spec_collect(pages@),
{
    let ghost all = pages@;
    let mut pager: Pager<T> = Pager::new();
    assert(all.skip(0) == all);
    assert(Seq::<T>::empty() + spec_collect(all) == spec_collect(all));
    for page in it: pages.into_iter()
        invariant
            it.seq() == all,
            pager@.more_follows,
            spec_collect(all) == pager@.items + spec_collect(all.skip(it.index() as int)),
    {
        let ghost rest = all.skip(it.index() as int);
        let ghost gathered = pager@.items;
        proof {
            assert(rest[0] == page);
            assert(rest.drop_first() == all.skip(it.index() + 1));
            assert(gathered + (page.items@ + spec_collect(rest.drop_first())) == (gathered
                + page.items@) + spec_collect(rest.drop_first()));
        }
        pager.accept(page.items, page.more_follows);
        if !pager.more_follows() {
            return pager.into_items();
        }
    }
    assert(all.skip(all.len() as int) == Seq::<Page<T>>::empty());
    assert(pager@.items + Seq::<T>::empty() == pager@.items);
    pager.into_items()
}

/// The pager after the first `n` pages.
pub open spec fn spec_paged<T>(pages: Seq<Page<T>>, n: nat) -> PagerView<T>
    decreases n,
{
    if n == 0 || n > pages.len() {
        PagerView::init()
    } else {
        spec_paged(pages, (n - 1) as nat).accept(
            pages[n - 1].items@,
            pages[n - 1].more_follows,
        )
    }
}

/// The items of the first `n` pages, one page after the other.
pub open spec fn spec_concat<T>(pages: Seq<Page<T>>, n: nat) -> Seq<T>
    decreases n,
{
    if n == 0 || n > pages.len() {
        Seq::empty()
    } else {
        spec_concat(pages, (n - 1) as nat) + pages[n - 1].items@
    }
}

/// Pagination: after any number of pages the pager holds the
/// concatenation of them, nothing added and nothing left out; it asks for
/// another page exactly as long as the last page announced more; and the
/// next request continues after the last item of the last page.
pub proof fn lemma_pagination<T>(pages: Seq<Page<T>>, n: nat)
    requires
        n <= pages.len(),
    ensures
        spec_paged(pages, n).items == spec_concat(pages, n),
        n > 0 ==> spec_paged(pages, n).more_follows == pages[n - 1].more_follows,
        n > 0 && pages[n - 1].items@.len() > 0 ==> spec_paged(pages, n).continue_after == Some(
            pages[n - 1].items@.last(),
        ),
    decreases n,
{
    if n > 0 {
        lemma_pagination(pages, (n - 1) as nat);
    }
}

/// Paginated termination: the run of requests ends with the first page that
/// announces no more. That page is asked for, no page after it is, and what
/// was gathered is the concatenation of the pages asked for.
pub proof fn lemma_pagination_terminates<T>(pages: Seq<Page<T>>)
    ensures
        spec_requests(pages) <= pages.len(),
        spec_collect(pages) == spec_concat(pages, spec_requests(pages)),
        forall|i: int| 0 <= i < spec_requests(pages) - 1 ==> (#[trigger] pages[i]).more_follows,
        0 < spec_requests(pages) < pages.len() ==> !pages[spec_requests(pages) - 1].more_follows,
    decreases pages.len(),
{
    if pages.len() > 0 {
        let tail = pages.drop_first();
        lemma_pagination_terminates(tail);
        if pages[0].more_follows {
            lemma_concat_shift(pages, spec_requests(tail));
            assert forall|i: int| 0 <= i < spec_requests(pages) - 1 implies (
            #[trigger] pages[i]).more_follows by {
                if i > 0 {
                    assert(pages[i] == tail[i - 1]);
                }
            }
            if 0 < spec_requests(tail) {
                assert(pages[spec_requests(pages) - 1] == tail[spec_requests(tail) - 1]);
            }
        } else {
            assert(spec_concat(pages, 0) == Seq::<T>::empty());
            assert(Seq::<T>::empty() + pages[0].items@ == pages[0].items@);
        }
    }
}

/// Where the request of a pager starts in the list that a server holds:
/// behind the item that the request continues after, or at the start
/// without one.
pub open spec fn spec_start<T>(list: Seq<T>, continue_after: Option<T>) -> int {
    match continue_after {
        Some(item) => list.index_of(item) + 1,
        None => 0,
    }
}

/// Whether a page is what a server that holds `list` answers to a request
/// that continues after `continue_after`: items that follow there in the
/// list, in their order, and the announcement of more exactly when the list
/// goes on behind them.
pub open spec fn spec_honors<T>(list: Seq<T>, continue_after: Option<T>, page: Page<T>) -> bool {
    let start = spec_start(list, continue_after);
    let end = start + page.items@.len();
    &&& end <= list.len()
    &&& page.items@ == list.subrange(start, end)
    &&& page.more_follows == (end < list.len())
}

/// As long as every page so far announced more, the pages gathered are a
/// start of the server's list, and the last of them announced more exactly
/// when the list goes on behind them.
pub proof fn lemma_pages_are_a_prefix<T>(list: Seq<T>, pages: Seq<Page<T>>, n: nat)
    requires
        list.no_duplicates(),
        n <= pages.len(),
        forall|k: int|
            0 <= k < n ==> spec_honors(
                list,
                spec_paged(pages, k as nat).continue_after,
                #[trigger] pages[k],
            ),
        forall|k: int| 0 <= k < n && (#[trigger] pages[k]).more_follows ==> pages[k].items@.len() > 0,
        forall|k: int| 0 <= k < n - 1 ==> (#[trigger] pages[k]).more_follows,
    ensures
        spec_concat(pages, n).len() <= list.len(),
        spec_concat(pages, n) == list.take(spec_concat(pages, n).len() as int),
        n > 0 ==> pages[n - 1].more_follows == (spec_concat(pages, n).len() < list.len()),
    decreases n,
{
    if n == 0 {
        assert(list.take(0) =~= Seq::<T>::empty());
    } else {
        let before = (n - 1) as nat;
        lemma_pages_are_a_prefix(list, pages, before);
        lemma_pagination(pages, before);
        let gathered = spec_concat(pages, before);
        let a = gathered.len() as int;
        let page = pages[n - 1];
        let continue_after = spec_paged(pages, before).continue_after;
        assert(spec_honors(list, continue_after, page));
        if before == 0 {
            assert(continue_after is None);
        } else {
            let last_page = pages[before - 1];
            assert(last_page.more_follows);
            assert(last_page.items@.len() > 0);
            assert(gathered == spec_concat(pages, (before - 1) as nat) + last_page.items@);
            assert(gathered.last() == last_page.items@.last());
            assert(gathered.last() == list.take(a)[a - 1]);
            let item = list[a - 1];
            assert(continue_after == Some(item));
            let found = list.index_of(item);
            assert(0 <= found < list.len() && list[found] == item);
            assert(found == a - 1);
        }
        assert(spec_start(list, continue_after) == a);
        let end = a + page.items@.len();
        assert(spec_concat(pages, n) == gathered + page.items@);
        assert(list.take(a) + list.subrange(a, end) =~= list.take(end));
    }
}

/// Pagination without duplicates: against a server that holds a list in
/// which nothing occurs twice, that honors the item to continue after, and
/// that sends at least one item with every page that announces more, the
/// pages asked for give exactly that list, each item once and in the order
/// of the server.
pub proof fn lemma_pagination_gives_the_list<T>(list: Seq<T>, pages: Seq<Page<T>>)
    requires
        list.no_duplicates(),
        pages.len() > 0,
        forall|k: int|
            0 <= k < pages.len() ==> spec_honors(
                list,
                spec_paged(pages, k as nat).continue_after,
                #[trigger] pages[k],
            ),
        forall|k: int|
            0 <= k < pages.len() && (#[trigger] pages[k]).more_follows ==> pages[k].items@.len()
                > 0,
        !pages.last().more_follows,
    ensures
        spec_collect(pages) == list,
        spec_collect(pages).no_duplicates(),
{
    lemma_pagination_terminates(pages);
    let asked = spec_requests(pages);
    assert(asked > 0);
    lemma_pages_are_a_prefix(list, pages, asked);
    assert(!pages[asked - 1].more_follows);
    assert(list.take(list.len() as int) =~= list);
}

/// The first page in front of the concatenation of the next `n` pages is
/// the concatenation of the first `n + 1` pages.
pub proof fn lemma_concat_shift<T>(pages: Seq<Page<T>>, n: nat)
    requires
        pages.len() > 0,
        n <= pages.len() - 1,
    ensures
        pages[0].items@ + spec_concat(pages.drop_first(), n) == spec_concat(pages, n + 1),
    decreases n,
{
    let tail = pages.drop_first();
    if n == 0 {
        assert(spec_concat(pages, 0) == Seq::<T>::empty());
        assert(pages[0].items@ + Seq::<T>::empty() == Seq::<T>::empty() + pages[0].items@);
    } else {
        lemma_concat_shift(pages, (n - 1) as nat);
        assert(tail[n - 1] == pages[n as int]);
        assert(pages[0].items@ + (spec_concat(tail, (n - 1) as nat) + tail[n - 1].items@) == (
        pages[0].items@ + spec_concat(tail, (n - 1) as nat)) + tail[n - 1].items@);
    }
}

/// What can interrupt the dispatcher between two PDUs.
#[derive(Debug, Clone, Copy, PartialEq, Eq, Structural)]
pub enum Interruption {
    /// Receiving from the association failed.
    ReceiveFailed,
    /// A received PDU could not be decoded.
    DecodeFailed,
    /// A report could not be read.
    ReportFailed,
    /// A request could not be encoded.
    EncodeFailed,
    /// A request could not be sent.
    SendFailed,
    /// The request queue was closed: no caller is left.
    QueueClosed,
}

/// Whether the dispatcher goes on.
#[derive(Debug, Clone, Copy, PartialEq, Eq, Structural)]
pub enum Flow {
    /// The dispatcher waits for the next PDU or request.
    Continue,
    /// The dispatcher ends; every waiter that is left is closed.
    Stop,
}

impl Interruption {
    /// Whether the dispatcher goes on after the interruption. It ends when
    /// receiving fails and when the request queue is closed. A PDU or
    /// report that cannot be read is passed over, and a request that cannot
    /// be encoded or sent is given up, its waiter closed.
    pub open spec fn spec_flow(self) -> Flow {
        match self {
            Interruption::ReceiveFailed => Flow::Stop,
            Interruption::QueueClosed => Flow::Stop,
            _ => Flow::Continue,
        }
    }

    /// Whether the dispatcher goes on after the interruption.
    pub fn flow(self) -> (res: Flow)
        ensures
            res == self.spec_flow(),
    {
        match self {
            Interruption::ReceiveFailed => Flow::Stop,
            Interruption::QueueClosed => Flow::Stop,
            _ => Flow::Continue,
        }
    }
}

} // verus!
