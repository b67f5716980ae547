use iec61850::mms::presentation::{
    acse_oid, ber_oid, copy_bytes, mms_oid, same_arcs, CpType, CpTypeNormalModeParameters, CpaPpdu,
    CpaPpduNormalModeParameters, PdvList,
    Presentation, PresentationContext, PresentationDataValues, PresentationError, UserData,
    ACSE_CONTEXT_ID, MMS_CONTEXT_ID,
};
use iec61850::mms::session::SessionError;

fn pdv(context: i128, syntax: Option<Vec<u32>>, data: &[u8]) -> PdvList {
    PdvList {
        transfer_syntax_name: syntax,
        presentation_context_identifier: context,
        presentation_data_values: PresentationDataValues::SingleAsn1Type(data.to_vec()),
    }
}

fn cpa(user_data: Option<UserData>) -> CpaPpdu {
    CpaPpdu { normal_mode_parameters: Some(CpaPpduNormalModeParameters { user_data }) }
}

#[test]
fn object_identifiers_of_the_stack() {
    assert_eq!(acse_oid(), vec![2, 2, 1, 0, 1]);
    assert_eq!(mms_oid(), vec![1, 0, 9506, 2, 1]);
    assert_eq!(ber_oid(), vec![2, 1, 1]);
    assert_eq!(ACSE_CONTEXT_ID, 1);
    assert_eq!(MMS_CONTEXT_ID, 3);
    assert!(same_arcs(&vec![2, 1, 1], &ber_oid()));
    assert!(!same_arcs(&vec![2, 1, 2], &ber_oid()));
    assert!(!same_arcs(&vec![2, 1], &ber_oid()));
    assert!(same_arcs(&vec![], &vec![]));
    assert_eq!(copy_bytes(&vec![1, 2, 3]), vec![1, 2, 3]);
}

#[test]
fn connect_ppdu_has_the_fixed_shape() {
    let presentation = Presentation::new(&vec![0, 0, 0, 1], &vec![0, 0, 0, 2]);
    let cp = presentation.connect_request(vec![0x60, 0x01]);
    assert_eq!(cp.mode_selector, 1);
    let parameters = cp.normal_mode_parameters.unwrap();
    assert_eq!(parameters.protocol_version, vec![true]);
    assert_eq!(parameters.calling_presentation_selector, Some(vec![0, 0, 0, 1]));
    assert_eq!(parameters.called_presentation_selector, Some(vec![0, 0, 0, 2]));
    assert_eq!(
        parameters.presentation_context_definition_list,
        Some(vec![
            PresentationContext {
                identifier: 1,
                abstract_syntax_name: vec![2, 2, 1, 0, 1],
                transfer_syntax_name_list: vec![vec![2, 1, 1]],
            },
            PresentationContext {
                identifier: 3,
                abstract_syntax_name: vec![1, 0, 9506, 2, 1],
                transfer_syntax_name_list: vec![vec![2, 1, 1]],
            },
        ])
    );
    assert_eq!(
        parameters.user_data,
        Some(UserData::FullyEncodedData(vec![pdv(1, None, &[0x60, 0x01])]))
    );
    let direct = Presentation::make_cp_ppdu(vec![9], vec![8], vec![7]);
    assert_eq!(
        direct.normal_mode_parameters.unwrap().calling_presentation_selector,
        Some(vec![9])
    );
}

#[test]
fn accept_ppdu_gives_the_last_pdv() {
    let user_data = UserData::FullyEncodedData(vec![pdv(3, None, &[1]), pdv(1, None, &[2, 3])]);
    assert_eq!(Presentation::connect(cpa(Some(user_data))), Ok((vec![2, 3], 1)));
    // On the accept PPDU the transfer syntax is not looked at.
    let odd = UserData::FullyEncodedData(vec![pdv(1, Some(vec![2, 1, 2]), &[5])]);
    assert_eq!(Presentation::connect(cpa(Some(odd))), Ok((vec![5], 1)));
}

#[test]
fn accept_ppdu_errors() {
    assert_eq!(
        Presentation::connect(CpaPpdu { normal_mode_parameters: None }),
        Err(PresentationError::MissingNormalModeParameters)
    );
    assert_eq!(Presentation::connect(cpa(None)), Err(PresentationError::MissingUserData));
    assert_eq!(
        Presentation::connect(cpa(Some(UserData::SimplyEncodedData(vec![1])))),
        Err(PresentationError::UnsupportedUserData)
    );
    assert_eq!(
        Presentation::connect(cpa(Some(UserData::FullyEncodedData(vec![])))),
        Err(PresentationError::MissingPdv)
    );
    assert_eq!(
        Presentation::connect(cpa(Some(UserData::FullyEncodedData(vec![pdv(-1, None, &[])])))),
        Err(PresentationError::InvalidContextId)
    );
    assert_eq!(
        Presentation::connect(cpa(Some(UserData::FullyEncodedData(vec![pdv(
            u64::MAX as i128 + 1,
            None,
            &[]
        )])))),
        Err(PresentationError::InvalidContextId)
    );
    let octets = PdvList {
        transfer_syntax_name: None,
        presentation_context_identifier: 1,
        presentation_data_values: PresentationDataValues::OctetAligned(vec![1]),
    };
    assert_eq!(
        Presentation::connect(cpa(Some(UserData::FullyEncodedData(vec![octets])))),
        Err(PresentationError::UnsupportedPresentationDataValues)
    );
    let bits = PdvList {
        transfer_syntax_name: None,
        presentation_context_identifier: 1,
        presentation_data_values: PresentationDataValues::Arbitrary(vec![true]),
    };
    assert_eq!(
        Presentation::connect(cpa(Some(UserData::FullyEncodedData(vec![bits])))),
        Err(PresentationError::UnsupportedPresentationDataValues)
    );
}

#[test]
fn data_is_wrapped_on_the_mms_context() {
    let user_data = Presentation::send_data(vec![0xA0, 0x00]);
    assert_eq!(user_data, UserData::FullyEncodedData(vec![pdv(3, None, &[0xA0, 0x00])]));
    assert_eq!(Presentation::receive_data(user_data), Ok((vec![0xA0, 0x00], 3)));
}

#[test]
fn received_data_must_be_ber() {
    let ber = UserData::FullyEncodedData(vec![pdv(3, Some(vec![2, 1, 1]), &[1])]);
    assert_eq!(Presentation::receive_data(ber), Ok((vec![1], 3)));
    let other = UserData::FullyEncodedData(vec![pdv(3, Some(vec![2, 1, 2, 1]), &[1])]);
    assert_eq!(Presentation::receive_data(other), Err(PresentationError::UnsupportedTransferSyntax));
    // The transfer syntax is checked before the context identifier.
    let both = UserData::FullyEncodedData(vec![pdv(-5, Some(vec![1]), &[1])]);
    assert_eq!(Presentation::receive_data(both), Err(PresentationError::UnsupportedTransferSyntax));
    assert_eq!(
        Presentation::receive_data(UserData::FullyEncodedData(vec![])),
        Err(PresentationError::MissingPdv)
    );
    assert_eq!(
        Presentation::receive_data(UserData::SimplyEncodedData(vec![])),
        Err(PresentationError::UnsupportedUserData)
    );
    assert_eq!(
        Presentation::receive_data(UserData::FullyEncodedData(vec![pdv(
            u64::MAX as i128,
            None,
            &[4]
        )])),
        Ok((vec![4], u64::MAX))
    );
}

#[test]
fn session_error_becomes_presentation_error() {
    assert_eq!(
        PresentationError::from(SessionError::InvalidLength),
        PresentationError::SessionLayer { source: SessionError::InvalidLength }
    );
}

#[test]
fn test_cp_type_creation() {
    let normal_mode_params = CpTypeNormalModeParameters {
        protocol_version: vec![],
        calling_presentation_selector: Some(vec![0x00, 0x00, 0x00, 0x01]),
        called_presentation_selector: Some(vec![0x00, 0x00, 0x00, 0x01]),
        presentation_context_definition_list: None,
        user_data: None,
    };
    let cp_type = CpType { mode_selector: 1, normal_mode_parameters: Some(normal_mode_params) };

    assert_eq!(cp_type.mode_selector, 1);
    assert!(cp_type.normal_mode_parameters.is_some());

    let params = cp_type.normal_mode_parameters.unwrap();
    assert!(params.calling_presentation_selector.is_some());
    assert!(params.called_presentation_selector.is_some());
}

#[test]
fn test_user_data_simply_encoded() {
    let user_data = UserData::SimplyEncodedData(vec![0x04, 0x05, 0x06]);

    match user_data {
        UserData::SimplyEncodedData(sed) => {
            assert_eq!(sed, vec![0x04, 0x05, 0x06]);
        }
        _ => panic!("Expected simply_encoded_data"),
    }
}

#[test]
fn test_presentation_object_identifiers() {
    let acse_context_id = rasn::ber::encode(&rasn::types::ObjectIdentifier::new(acse_oid()))
        .expect("Failed to encode ACSE context ID");
    let mms_context_id = rasn::ber::encode(&rasn::types::ObjectIdentifier::new(mms_oid()))
        .expect("Failed to encode MMS context ID");
    let transfer_syntax_name = rasn::ber::encode(&rasn::types::ObjectIdentifier::new(ber_oid()))
        .expect("Failed to encode transfer syntax name");

    assert_eq!(acse_context_id, vec![0x06, 0x04, 0x52, 0x01, 0x00, 0x01]);
    assert_eq!(mms_context_id, vec![0x06, 0x05, 0x28, 0xca, 0x22, 0x02, 0x01]);
    assert_eq!(transfer_syntax_name, vec![0x06, 0x02, 0x51, 0x01]);
}
