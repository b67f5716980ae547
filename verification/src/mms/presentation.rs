//! ISO 8823 presentation layer, normal mode: what goes into the connect
//! PPDU and what is taken out of the PPDUs that come back.
//!
//! The PPDUs are BER values. This module works on plain models of them; the
//! caller turns a model into bytes and bytes into a model with the codec.

use vstd::prelude::*;
use crate::mms::session::SessionError;

verus! {

/// The presentation context identifier of ACSE.
pub const ACSE_CONTEXT_ID: u64 = 1;

/// The presentation context identifier of MMS.
pub const MMS_CONTEXT_ID: u64 = 3;

/// The arcs of the abstract syntax of ACSE.
pub open spec fn spec_acse_oid() -> Seq<u32> {
    seq![2u32, 2u32, 1u32, 0u32, 1u32]
}

/// The arcs of the abstract syntax of MMS.
pub open spec fn spec_mms_oid() -> Seq<u32> {
    seq![1u32, 0u32, 9506u32, 2u32, 1u32]
}

/// The arcs of the transfer syntax BER.
pub open spec fn spec_ber_oid() -> Seq<u32> {
    seq![2u32, 1u32, 1u32]
}

/// The arcs of the abstract syntax of ACSE.
pub fn acse_oid() -> (res: Vec<u32>)
    ensures
        res@ == spec_acse_oid(),
{
    let res: Vec<u32> = vec![2, 2, 1, 0, 1];
    assert(res@ =~= spec_acse_oid());
    res
}

/// The arcs of the abstract syntax of MMS.
pub fn mms_oid() -> (res: Vec<u32>)
    ensures
        res@ == spec_mms_oid(),
{
    let res: Vec<u32> = vec![1, 0, 9506, 2, 1];
    assert(res@ =~= spec_mms_oid());
    res
}

/// The arcs of the transfer syntax BER.
pub fn ber_oid() -> (res: Vec<u32>)
    ensures
        res@ == spec_ber_oid(),
{
    let res: Vec<u32> = vec![2, 1, 1];
    assert(res@ =~= spec_ber_oid());
    res
}

/// What can go wrong in the presentation layer.
#[derive(Debug, Clone, Copy, PartialEq, Eq, Structural)]
pub enum PresentationError {
    /// The context identifier is negative or does not fit 64 bits.
    InvalidContextId,
    /// The data values are not a single ASN.1 type.
    UnsupportedPresentationDataValues,
    /// The user data could not be encoded.
    EncodeData,
    /// The session layer failed.
    SessionLayer { source: SessionError },
    /// A transfer syntax other than BER.
    UnsupportedTransferSyntax,
    /// The user data could not be decoded.
    DecodeData,
    /// The PDV list is empty.
    MissingPdv,
    /// Simply encoded user data.
    UnsupportedUserData,
    /// The accept PPDU has no normal mode parameters.
    MissingNormalModeParameters,
    /// The accept PPDU has no user data.
    MissingUserData,
    /// The session could not be created.
    CreateSession { source: SessionError },
    /// Arcs that make no object identifier.
    CreateObjectIdentifier,
    /// The connect PPDU could not be encoded.
    EncodeCp,
    /// The accept PPDU could not be decoded.
    DecodeCpa,
}

impl From<SessionError> for PresentationError {
    fn from(error: SessionError) -> (res: PresentationError) {
        PresentationError::SessionLayer { source: error }
    }
}

impl vstd::std_specs::convert::FromSpecImpl<SessionError> for PresentationError {
    open spec fn obeys_from_spec() -> bool {
        true
    }

    open spec fn from_spec(error: SessionError) -> PresentationError {
        PresentationError::SessionLayer { source: error }
    }
}

/// One entry of the presentation context definition list.
#[derive(Debug, Clone, PartialEq, Eq)]
pub struct PresentationContext {
    /// The identifier by which later PDVs name the context.
    pub identifier: u64,
    /// The arcs of the abstract syntax.
    pub abstract_syntax_name: Vec<u32>,
    /// The arcs of each transfer syntax on offer.
    pub transfer_syntax_name_list: Vec<Vec<u32>>,
}

/// The data values of a PDV.
#[derive(Debug, Clone, PartialEq, Eq)]
pub enum PresentationDataValues {
    /// One ASN.1 value in its encoding.
    SingleAsn1Type(Vec<u8>),
    /// Octet-aligned data.
    OctetAligned(Vec<u8>),
    /// A bit string.
    Arbitrary(Vec<bool>),
}

/// One presentation data value with its context.
#[derive(Debug, Clone, PartialEq, Eq)]
pub struct PdvList {
    /// The arcs of the transfer syntax, if the PDV names one.
    pub transfer_syntax_name: Option<Vec<u32>>,
    /// The identifier of the presentation context.
    pub presentation_context_identifier: i128,
    /// The data values.
    pub presentation_data_values: PresentationDataValues,
}

/// The user data of a PPDU.
#[derive(Debug, Clone, PartialEq, Eq)]
pub enum UserData {
    /// Simply encoded data.
    SimplyEncodedData(Vec<u8>),
    /// A list of PDVs.
    FullyEncodedData(Vec<PdvList>),
}

/// The normal mode parameters of the connect PPDU, as far as they are set.
#[derive(Debug, Clone, PartialEq, Eq)]
pub struct CpTypeNormalModeParameters {
    /// The bits of the protocol version.
    pub protocol_version: Vec<bool>,
    /// The calling presentation selector.
    pub calling_presentation_selector: Option<Vec<u8>>,
    /// The called presentation selector.
    pub called_presentation_selector: Option<Vec<u8>>,
    /// The presentation contexts on offer.
    pub presentation_context_definition_list: Option<Vec<PresentationContext>>,
    /// The user data.
    pub user_data: Option<UserData>,
}

/// The connect PPDU.
#[derive(Debug, Clone, PartialEq, Eq)]
pub struct CpType {
    /// The mode: 1 is normal mode.
    pub mode_selector: i128,
    /// The normal mode parameters.
    pub normal_mode_parameters: Option<CpTypeNormalModeParameters>,
}

/// The normal mode parameters of the accept PPDU, as far as they are read.
#[derive(Debug, Clone, PartialEq, Eq)]
pub struct CpaPpduNormalModeParameters {
    /// The user data.
    pub user_data: Option<UserData>,
}

/// The accept PPDU.
#[derive(Debug, Clone, PartialEq, Eq)]
pub struct CpaPpdu {
    /// The normal mode parameters.
    pub normal_mode_parameters: Option<CpaPpduNormalModeParameters>,
}

/// A copy of a byte vector.
pub fn copy_bytes(bytes: &Vec<u8>) -> (res: Vec<u8>)
    ensures
        res@ == bytes@,
{
    let mut out: Vec<u8> = Vec::new();
    let mut i: usize = 0;
    while i < bytes.len()
        invariant
            i <= bytes@.len(),
            out@ == bytes@.take(i as int),
        decreases bytes@.len() - i,
    {
        out.push(bytes[i]);
        i = i + 1;
    }
    assert(bytes@.take(bytes@.len() as int) == bytes@);
    out
}

/// Whether two lists of arcs are the same.
pub fn same_arcs(a: &Vec<u32>, b: &Vec<u32>) -> (res: bool)
    ensures
        res == (a@ == b@),
{
    if a.len() != b.len() {
        return false;
    }
    let mut i: usize = 0;
    while i < a.len()
        invariant
            a@.len() == b@.len(),
            i <= a@.len(),
            a@.take(i as int) == b@.take(i as int),
        decreases a@.len() - i,
    {
        if a[i] != b[i] {
            return false;
        }
        assert(a@.take(i + 1) == a@.take(i as int).push(a@[i as int]));
        assert(b@.take(i + 1) == b@.take(i as int).push(b@[i as int]));
        i = i + 1;
    }
    assert(a@.take(a@.len() as int) == a@);
    assert(b@.take(b@.len() as int) == b@);
    true
}

/// Whether a PDV list entry is the single PDV that carries `data` as one
/// ASN.1 value on the given context, without naming a transfer syntax.
pub open spec fn spec_is_single_pdv(pdv: PdvList, context: u64, data: Seq<u8>) -> bool {
    &&& pdv.transfer_syntax_name is None
    &&& pdv.presentation_context_identifier == context
    &&& pdv.presentation_data_values matches PresentationDataValues::SingleAsn1Type(d)
    &&& d@ == data
}

/// Whether user data is one PDV that carries `data` as one ASN.1 value on
/// the given context.
pub open spec fn spec_is_single_pdv_data(user_data: UserData, context: u64, data: Seq<u8>) -> bool {
    &&& user_data matches UserData::FullyEncodedData(list)
    &&& list@.len() == 1
    &&& spec_is_single_pdv(list@[0], context, data)
}

/// Whether a context entry offers the given abstract syntax with BER as its
/// only transfer syntax.
pub open spec fn spec_is_context(entry: PresentationContext, identifier: u64, syntax: Seq<u32>) -> bool {
    &&& entry.identifier == identifier
    &&& entry.abstract_syntax_name@ == syntax
    &&& entry.transfer_syntax_name_list@.len() == 1
    &&& entry.transfer_syntax_name_list@[0]@ == spec_ber_oid()
}

/// What user data gives to the upper layer: the bytes of the last PDV and
/// its context identifier. Simply encoded data, an empty list, a context
/// identifier outside 64 bits and data values that are not a single ASN.1
/// type are errors; with `check_syntax`, so is a transfer syntax other than
/// BER.
pub open spec fn spec_extract(user_data: UserData, check_syntax: bool) -> Result<
    (Seq<u8>, u64),
    PresentationError,
> {
    match user_data {
        UserData::SimplyEncodedData(_) => Err(PresentationError::UnsupportedUserData),
        UserData::FullyEncodedData(list) => if list@.len() == 0 {
            Err(PresentationError::MissingPdv)
        } else {
            let pdv = list@.last();
            if check_syntax && (pdv.transfer_syntax_name matches Some(name) && name@
                != spec_ber_oid()) {
                Err(PresentationError::UnsupportedTransferSyntax)
            } else if pdv.presentation_context_identifier < 0
                || pdv.presentation_context_identifier > u64::MAX {
                Err(PresentationError::InvalidContextId)
            } else {
                match pdv.presentation_data_values {
                    PresentationDataValues::SingleAsn1Type(data) => Ok(
                        (data@, pdv.presentation_context_identifier as u64),
                    ),
                    _ => Err(PresentationError::UnsupportedPresentationDataValues),
                }
            }
        },
    }
}

/// What the accept PPDU gives to the upper layer: what its user data gives,
/// the transfer syntax not looked at.
pub open spec fn spec_connect(cpa: CpaPpdu) -> Result<(Seq<u8>, u64), PresentationError> {
    match cpa.normal_mode_parameters {
        None => Err(PresentationError::MissingNormalModeParameters),
        Some(parameters) => match parameters.user_data {
            None => Err(PresentationError::MissingUserData),
            Some(user_data) => spec_extract(user_data, false),
        },
    }
}

/// Takes the bytes for the upper layer out of user data.
fn extract(user_data: UserData, check_syntax: bool) -> (res: Result<(Vec<u8>, u64), PresentationError>)
    ensures
        match res {
            Ok(pair) => spec_extract(user_data, check_syntax) == Ok::<
                (Seq<u8>, u64),
                PresentationError,
            >((pair.0@, pair.1)),
            Err(e) => spec_extract(user_data, check_syntax) == Err::<
                (Seq<u8>, u64),
                PresentationError,
            >(e),
        },
{
    let mut pdvs: Vec<PdvList> = match user_data {
        UserData::FullyEncodedData(data) => data,
        UserData::SimplyEncodedData(_) => {
            return Err(PresentationError::UnsupportedUserData);
        },
    };
    let pdv: PdvList = match pdvs.pop() {
        Some(pdv) => pdv,
        None => {
            return Err(PresentationError::MissingPdv);
        },
    };
    if check_syntax {
        match &pdv.transfer_syntax_name {
            Some(name) => {
                let ber: Vec<u32> = ber_oid();
                if !same_arcs(name, &ber) {
                    return Err(PresentationError::UnsupportedTransferSyntax);
                }
            },
            None => {},
        }
    }
    if pdv.presentation_context_identifier < 0 || pdv.presentation_context_identifier
        > 0xffff_ffff_ffff_ffff {
        return Err(PresentationError::InvalidContextId);
    }
    let context_id: u64 = pdv.presentation_context_identifier as u64;
    match pdv.presentation_data_values {
        PresentationDataValues::SingleAsn1Type(data) => Ok((data, context_id)),
        _ => Err(PresentationError::UnsupportedPresentationDataValues),
    }
}

/// The presentation layer of one association: its two selectors.
#[derive(Debug, Clone, PartialEq, Eq)]
pub struct Presentation {
    /// The selector of this side.
    pub local_p_sel: Vec<u8>,
    /// The selector of the peer.
    pub remote_p_sel: Vec<u8>,
}

impl Presentation {
    /// Takes the two selectors of a configuration.
    pub fn new(local_p_sel: &Vec<u8>, remote_p_sel: &Vec<u8>) -> (res: Self)
        ensures
            res.local_p_sel@ == local_p_sel@,
            res.remote_p_sel@ == remote_p_sel@,
    {
        Self { local_p_sel: copy_bytes(local_p_sel), remote_p_sel: copy_bytes(remote_p_sel) }
    }

    /// The connect PPDU that carries `data`: normal mode, protocol version
    /// with its one bit set, both selectors, the contexts of ACSE (1) and
    /// MMS (3) over BER, and the data as a single PDV on the context of
    /// ACSE.
    pub fn make_cp_ppdu(local_p_sel: Vec<u8>, remote_p_sel: Vec<u8>, data: Vec<u8>) -> (res: CpType)
        ensures
            res.mode_selector == 1,
            res.normal_mode_parameters matches Some(p) && {
                &&& p.protocol_version@ == seq![true]
                &&& p.calling_presentation_selector == Some(local_p_sel)
                &&& p.called_presentation_selector == Some(remote_p_sel)
                &&& p.presentation_context_definition_list matches Some(contexts)
                &&& contexts@.len() == 2
                &&& spec_is_context(contexts@[0], ACSE_CONTEXT_ID, spec_acse_oid())
                &&& spec_is_context(contexts@[1], MMS_CONTEXT_ID, spec_mms_oid())
                &&& p.user_data matches Some(user_data)
                &&& spec_is_single_pdv_data(user_data, ACSE_CONTEXT_ID, data@)
            },
    {
        let p_list: PdvList = PdvList {
            transfer_syntax_name: None,
            presentation_context_identifier: 1,
            presentation_data_values: PresentationDataValues::SingleAsn1Type(data),
        };
        let p_data: Vec<PdvList> = vec![p_list];
        let contexts: Vec<PresentationContext> = vec![
            PresentationContext {
                identifier: ACSE_CONTEXT_ID,
                abstract_syntax_name: acse_oid(),
                transfer_syntax_name_list: vec![ber_oid()],
            },
            PresentationContext {
                identifier: MMS_CONTEXT_ID,
                abstract_syntax_name: mms_oid(),
                transfer_syntax_name_list: vec![ber_oid()],
            },
        ];
        let normal_mode_params: CpTypeNormalModeParameters = CpTypeNormalModeParameters {
            protocol_version: vec![true],
            calling_presentation_selector: Some(local_p_sel),
            called_presentation_selector: Some(remote_p_sel),
            presentation_context_definition_list: Some(contexts),
            user_data: Some(UserData::FullyEncodedData(p_data)),
        };
        CpType { mode_selector: 1, normal_mode_parameters: Some(normal_mode_params) }
    }

    /// The connect PPDU of this association for the payload of the upper
    /// layer.
    pub fn connect_request(&self, data: Vec<u8>) -> (res: CpType)
        ensures
            res.mode_selector == 1,
            res.normal_mode_parameters matches Some(p) && {
                &&& p.protocol_version@ == seq![true]
                &&& p.calling_presentation_selector matches Some(s) && s@ == self.local_p_sel@
                &&& p.called_presentation_selector matches Some(s) && s@ == self.remote_p_sel@
                &&& p.presentation_context_definition_list matches Some(contexts)
                &&& contexts@.len() == 2
                &&& spec_is_context(contexts@[0], ACSE_CONTEXT_ID, spec_acse_oid())
                &&& spec_is_context(contexts@[1], MMS_CONTEXT_ID, spec_mms_oid())
                &&& p.user_data matches Some(user_data)
                &&& spec_is_single_pdv_data(user_data, ACSE_CONTEXT_ID, data@)
            },
    {
        Self::make_cp_ppdu(copy_bytes(&self.local_p_sel), copy_bytes(&self.remote_p_sel), data)
    }

    /// Reads the accept PPDU and gives the bytes for the upper layer with
    /// the identifier of their context.
    pub fn connect(cpa: CpaPpdu) -> (res: Result<(Vec<u8>, u64), PresentationError>)
        ensures
            match res {
                Ok(pair) => spec_connect(cpa) == Ok::<(Seq<u8>, u64), PresentationError>(
                    (pair.0@, pair.1),
                ),
                Err(e) => spec_connect(cpa) == Err::<(Seq<u8>, u64), PresentationError>(e),
            },
    {
        let parameters: CpaPpduNormalModeParameters = match cpa.normal_mode_parameters {
            Some(p) => p,
            None => {
                return Err(PresentationError::MissingNormalModeParameters);
            },
        };
        let user_data: UserData = match parameters.user_data {
            Some(u) => u,
            None => {
                return Err(PresentationError::MissingUserData);
            },
        };
        extract(user_data, false)
    }

    /// The user data to send for a data unit of the upper layer: a single
    /// PDV on the context of MMS.
    pub fn send_data(data: Vec<u8>) -> (res: UserData)
        ensures
            spec_is_single_pdv_data(res, MMS_CONTEXT_ID, data@),
    {
        let pdv: PdvList = PdvList {
            transfer_syntax_name: None,
            presentation_context_identifier: 3,
            presentation_data_values: PresentationDataValues::SingleAsn1Type(data),
        };
        UserData::FullyEncodedData(vec![pdv])
    }

    /// Reads received user data and gives the bytes for the upper layer
    /// with the identifier of their context. A PDV that names a transfer
    /// syntax must name BER.
    pub fn receive_data(user_data: UserData) -> (res: Result<(Vec<u8>, u64), PresentationError>)
        ensures
            match res {
                Ok(pair) => spec_extract(user_data, true) == Ok::<
                    (Seq<u8>, u64),
                    PresentationError,
                >((pair.0@, pair.1)),
                Err(e) => spec_extract(user_data, true) == Err::<
                    (Seq<u8>, u64),
                    PresentationError,
                >(e),
            },
    {
        extract(user_data, true)
    }
}

/// What is sent for a data unit is read back as that data unit on the
/// context of MMS.
pub proof fn lemma_send_receive(user_data: UserData, data: Seq<u8>)
    requires
        spec_is_single_pdv_data(user_data, MMS_CONTEXT_ID, data),
    ensures
        spec_extract(user_data, true) == Ok::<(Seq<u8>, u64), PresentationError>(
            (data, MMS_CONTEXT_ID),
        ),
{
}

} // verus!
