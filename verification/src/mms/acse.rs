//! ISO 8650 association control: what goes into the association request
//! and what is taken out of the response.
//!
//! As in the presentation layer the APDUs are BER values, and this module
//! works on plain models of them.

use vstd::prelude::*;
use crate::mms::ClientConfig;
use crate::mms::codec::object_identifier_accepts;
use crate::mms::codec::spec_valid_oid;
use crate::mms::presentation::PresentationError;

verus! {

/// The reference by which the user information names the context of MMS.
pub const MMS_INDIRECT_REFERENCE: i128 = 3;

/// The arcs of the application context name of MMS.
pub open spec fn spec_aso_context_name() -> Seq<u32> {
    seq![1u32, 0u32, 9506u32, 2u32, 3u32]
}

/// The arcs of the application context name of MMS.
pub fn aso_context_name() -> (res: Vec<u32>)
    ensures
        res@ == spec_aso_context_name(),
{
    let res: Vec<u32> = vec![1, 0, 9506, 2, 3];
    assert(res@ =~= spec_aso_context_name());
    res
}

/// What can go wrong in the association control.
#[derive(Debug, Clone, Copy, PartialEq, Eq, Structural)]
pub enum AcseError {
    /// The presentation layer failed.
    PresentationLayer { source: PresentationError },
    /// The user information is not a single ASN.1 type.
    WrongUserInformationEncoding,
    /// The response carries no user information.
    MissingUserInformation,
    /// The response could not be decoded.
    DecodeAare,
    /// The peer did not accept the association.
    AareResultNotSuccessful,
    /// The request could not be encoded.
    EncodeAarq,
    /// Arcs that make no object identifier.
    CreateObjectIdentifier,
}

impl From<PresentationError> for AcseError {
    fn from(error: PresentationError) -> (res: AcseError) {
        AcseError::PresentationLayer { source: error }
    }
}

impl vstd::std_specs::convert::FromSpecImpl<PresentationError> for AcseError {
    open spec fn obeys_from_spec() -> bool {
        true
    }

    open spec fn from_spec(error: PresentationError) -> AcseError {
        AcseError::PresentationLayer { source: error }
    }
}

/// The encoding of an EXTERNAL value.
#[derive(Debug, Clone, PartialEq, Eq)]
pub enum ExternalEncoding {
    /// One ASN.1 value in its encoding.
    SingleAsn1Type(Vec<u8>),
    /// Octet-aligned data.
    OctetAligned(Vec<u8>),
    /// A bit string.
    Arbitrary(Vec<bool>),
}

/// An EXTERNAL value of the user information.
#[derive(Debug, Clone, PartialEq, Eq)]
pub struct External {
    /// The arcs of the direct reference, if there is one.
    pub direct_reference: Option<Vec<u32>>,
    /// The indirect reference, if there is one.
    pub indirect_reference: Option<i128>,
    /// The encoding with the data.
    pub encoding: ExternalEncoding,
}

/// The association request, as far as it is set.
#[derive(Debug, Clone, PartialEq, Eq)]
pub struct AarqApdu {
    /// The arcs of the application context name.
    pub aso_context_name: Vec<u32>,
    /// The arcs of the called AP title.
    pub called_ap_title: Option<Vec<u32>>,
    /// The called AE qualifier.
    pub called_ae_qualifier: Option<u32>,
    /// The arcs of the calling AP title.
    pub calling_ap_title: Option<Vec<u32>>,
    /// The calling AE qualifier.
    pub calling_ae_qualifier: Option<u32>,
    /// The user information.
    pub user_information: Option<Vec<External>>,
}

/// The association response, as far as it is read.
#[derive(Debug, Clone, PartialEq, Eq)]
pub struct AareApdu {
    /// The result: 0 is accepted.
    pub result: i128,
    /// The user information.
    pub user_information: Option<Vec<External>>,
}

/// The AP title that goes into the request: the configured arcs if they
/// make an object identifier, else none.
pub open spec fn spec_title(title: Option<Vec<u32>>) -> Option<Seq<u32>> {
    match title {
        Some(arcs) => if spec_valid_oid(arcs@) {
            Some(arcs@)
        } else {
            None
        },
        None => None,
    }
}

/// The arcs of an optional title.
pub open spec fn spec_arcs(title: Option<Vec<u32>>) -> Option<Seq<u32>> {
    match title {
        Some(arcs) => Some(arcs@),
        None => None,
    }
}

/// Whether user information is exactly one EXTERNAL value that carries
/// `data` as one ASN.1 value under the indirect reference 3.
pub open spec fn spec_is_mms_information(information: Option<Vec<External>>, data: Seq<u8>) -> bool {
    &&& information matches Some(list)
    &&& list@.len() == 1
    &&& list@[0].direct_reference is None
    &&& list@[0].indirect_reference == Some(MMS_INDIRECT_REFERENCE)
    &&& list@[0].encoding matches ExternalEncoding::SingleAsn1Type(d)
    &&& d@ == data
}

/// What the association response gives to the upper layer: the bytes of
/// the last EXTERNAL value of its user information. A result other than 0,
/// missing or empty user information and another encoding than a single
/// ASN.1 type are errors, in this order.
pub open spec fn spec_connect(aare: AareApdu) -> Result<Seq<u8>, AcseError> {
    if aare.result != 0 {
        Err(AcseError::AareResultNotSuccessful)
    } else {
        match aare.user_information {
            None => Err(AcseError::MissingUserInformation),
            Some(list) => if list@.len() == 0 {
                Err(AcseError::MissingUserInformation)
            } else {
                match list@.last().encoding {
                    ExternalEncoding::SingleAsn1Type(data) => Ok(data@),
                    _ => Err(AcseError::WrongUserInformationEncoding),
                }
            },
        }
    }
}

/// A copy of a list of arcs.
pub fn copy_arcs(arcs: &Vec<u32>) -> (res: Vec<u32>)
    ensures
        res@ == arcs@,
{
    let mut out: Vec<u32> = Vec::new();
    let mut i: usize = 0;
    while i < arcs.len()
        invariant
            i <= arcs@.len(),
            out@ == arcs@.take(i as int),
        decreases arcs@.len() - i,
    {
        out.push(arcs[i]);
        i = i + 1;
    }
    assert(arcs@.take(arcs@.len() as int) == arcs@);
    out
}

/// The AP title that goes into the request.
fn checked_title(title: &Option<Vec<u32>>) -> (res: Option<Vec<u32>>)
    ensures
        spec_arcs(res) == spec_title(*title),
{
    match title {
        Some(arcs) => {
            if object_identifier_accepts(arcs.as_slice()) {
                Some(copy_arcs(arcs))
            } else {
                None
            }
        },
        None => None,
    }
}

/// The association control of one association: the titles and qualifiers
/// of both sides.
#[derive(Debug, Clone, PartialEq, Eq)]
pub struct Acse {
    /// The arcs of the local AP title.
    pub local_ap_title: Option<Vec<u32>>,
    /// The local AE qualifier.
    pub local_ae_qualifier: Option<u32>,
    /// The arcs of the remote AP title.
    pub remote_ap_title: Option<Vec<u32>>,
    /// The remote AE qualifier.
    pub remote_ae_qualifier: Option<u32>,
}

impl Acse {
    /// Takes the titles and qualifiers of a configuration.
    pub fn new(config: &ClientConfig) -> (res: Self)
        ensures
            spec_arcs(res.local_ap_title) == spec_arcs(config.local_ap_title),
            spec_arcs(res.remote_ap_title) == spec_arcs(config.remote_ap_title),
            res.local_ae_qualifier == config.local_ae_qualifier,
            res.remote_ae_qualifier == config.remote_ae_qualifier,
    {
        let local_ap_title: Option<Vec<u32>> = match &config.local_ap_title {
            Some(arcs) => Some(copy_arcs(arcs)),
            None => None,
        };
        let remote_ap_title: Option<Vec<u32>> = match &config.remote_ap_title {
            Some(arcs) => Some(copy_arcs(arcs)),
            None => None,
        };
        Self {
            local_ap_title,
            local_ae_qualifier: config.local_ae_qualifier,
            remote_ap_title,
            remote_ae_qualifier: config.remote_ae_qualifier,
        }
    }

    /// The association request that carries `data`: the application
    /// context name of MMS, the remote side as called and the local side as
    /// calling (a title only if its arcs make an object identifier), and
    /// the data as the one EXTERNAL value of the user information.
    pub fn connect_request(&self, data: Vec<u8>) -> (res: Result<AarqApdu, AcseError>)
        ensures
            res matches Ok(aarq) && {
                &&& aarq.aso_context_name@ == spec_aso_context_name()
                &&& spec_arcs(aarq.called_ap_title) == spec_title(self.remote_ap_title)
                &&& aarq.called_ae_qualifier == self.remote_ae_qualifier
                &&& spec_arcs(aarq.calling_ap_title) == spec_title(self.local_ap_title)
                &&& aarq.calling_ae_qualifier == self.local_ae_qualifier
                &&& spec_is_mms_information(aarq.user_information, data@)
            },
    {
        let name: Vec<u32> = aso_context_name();
        if !object_identifier_accepts(name.as_slice()) {
            return Err(AcseError::CreateObjectIdentifier);
        }
        let information: External = External {
            direct_reference: None,
            indirect_reference: Some(3),
            encoding: ExternalEncoding::SingleAsn1Type(data),
        };
        Ok(
            AarqApdu {
                aso_context_name: name,
                called_ap_title: checked_title(&self.remote_ap_title),
                called_ae_qualifier: self.remote_ae_qualifier,
                calling_ap_title: checked_title(&self.local_ap_title),
                calling_ae_qualifier: self.local_ae_qualifier,
                user_information: Some(vec![information]),
            },
        )
    }

    /// Reads the association response and gives the bytes for the upper
    /// layer.
    pub fn connect(aare: AareApdu) -> (res: Result<Vec<u8>, AcseError>)
        ensures
            match res {
                Ok(data) => spec_connect(aare) == Ok::<Seq<u8>, AcseError>(data@),
                Err(e) => spec_connect(aare) == Err::<Seq<u8>, AcseError>(e),
            },
    {
        if aare.result != 0 {
            return Err(AcseError::AareResultNotSuccessful);
        }
        let mut list: Vec<External> = match aare.user_information {
            Some(list) => list,
            None => {
                return Err(AcseError::MissingUserInformation);
            },
        };
        let user_data: External = match list.pop() {
            Some(e) => e,
            None => {
                return Err(AcseError::MissingUserInformation);
            },
        };
        match user_data.encoding {
            ExternalEncoding::SingleAsn1Type(data) => Ok(data),
            _ => Err(AcseError::WrongUserInformationEncoding),
        }
    }
}

/// A response that accepts and carries the user information of a request
/// gives the data of that request.
pub proof fn lemma_accepting_response(aare: AareApdu, data: Seq<u8>)
    requires
        aare.result == 0,
        spec_is_mms_information(aare.user_information, data),
    ensures
        spec_connect(aare) == Ok::<Seq<u8>, AcseError>(data),
{
}

} // verus!
