use iec61850::mms::acse::{
    aso_context_name, copy_arcs, AareApdu, Acse, AcseError, External, ExternalEncoding,
};
use iec61850::mms::presentation::PresentationError;
use iec61850::mms::ClientConfig;

fn information(data: &[u8]) -> External {
    External {
        direct_reference: None,
        indirect_reference: Some(3),
        encoding: ExternalEncoding::SingleAsn1Type(data.to_vec()),
    }
}

#[test]
fn association_request_for_the_default_configuration() {
    let acse = Acse::new(&ClientConfig::default());
    assert_eq!(acse.local_ap_title, Some(vec![1, 1, 1, 999]));
    assert_eq!(acse.remote_ap_title, Some(vec![1, 1, 1, 999, 1]));
    let aarq = acse.connect_request(vec![0xA8, 0x00]).unwrap();
    assert_eq!(aarq.aso_context_name, vec![1, 0, 9506, 2, 3]);
    assert_eq!(aarq.called_ap_title, Some(vec![1, 1, 1, 999, 1]));
    assert_eq!(aarq.called_ae_qualifier, Some(12));
    assert_eq!(aarq.calling_ap_title, Some(vec![1, 1, 1, 999]));
    assert_eq!(aarq.calling_ae_qualifier, Some(12));
    assert_eq!(aarq.user_information, Some(vec![information(&[0xA8, 0x00])]));
    assert_eq!(aso_context_name(), vec![1, 0, 9506, 2, 3]);
    assert_eq!(copy_arcs(&vec![1, 2, 3]), vec![1, 2, 3]);
}

#[test]
fn titles_that_are_no_object_identifiers_are_left_out() {
    let mut config = ClientConfig::default();
    config.local_ap_title = Some(vec![3, 1]);
    config.remote_ap_title = Some(vec![]);
    config.local_ae_qualifier = None;
    let aarq = Acse::new(&config).connect_request(vec![]).unwrap();
    assert_eq!(aarq.calling_ap_title, None);
    assert_eq!(aarq.called_ap_title, None);
    assert_eq!(aarq.calling_ae_qualifier, None);
    assert_eq!(aarq.called_ae_qualifier, Some(12));

    config.local_ap_title = Some(vec![1, 40]);
    config.remote_ap_title = Some(vec![2, 40]);
    let aarq = Acse::new(&config).connect_request(vec![]).unwrap();
    assert_eq!(aarq.calling_ap_title, None);
    assert_eq!(aarq.called_ap_title, Some(vec![2, 40]));

    config.local_ap_title = Some(vec![0, 39]);
    config.remote_ap_title = Some(vec![2]);
    let aarq = Acse::new(&config).connect_request(vec![]).unwrap();
    assert_eq!(aarq.calling_ap_title, Some(vec![0, 39]));
    assert_eq!(aarq.called_ap_title, Some(vec![2]));

    config.local_ap_title = None;
    let aarq = Acse::new(&config).connect_request(vec![]).unwrap();
    assert_eq!(aarq.calling_ap_title, None);
}

#[test]
fn association_response_gives_the_user_information() {
    let aare = AareApdu { result: 0, user_information: Some(vec![information(&[0xA9, 0x01])]) };
    assert_eq!(Acse::connect(aare), Ok(vec![0xA9, 0x01]));
    let two = AareApdu {
        result: 0,
        user_information: Some(vec![information(&[1]), information(&[2])]),
    };
    assert_eq!(Acse::connect(two), Ok(vec![2]));
}

#[test]
fn association_response_errors() {
    let rejected = AareApdu { result: 1, user_information: Some(vec![information(&[1])]) };
    assert_eq!(Acse::connect(rejected), Err(AcseError::AareResultNotSuccessful));
    let negative = AareApdu { result: -1, user_information: None };
    assert_eq!(Acse::connect(negative), Err(AcseError::AareResultNotSuccessful));
    let missing = AareApdu { result: 0, user_information: None };
    assert_eq!(Acse::connect(missing), Err(AcseError::MissingUserInformation));
    let empty = AareApdu { result: 0, user_information: Some(vec![]) };
    assert_eq!(Acse::connect(empty), Err(AcseError::MissingUserInformation));
    let octets = External {
        direct_reference: None,
        indirect_reference: Some(3),
        encoding: ExternalEncoding::OctetAligned(vec![1]),
    };
    let wrong = AareApdu { result: 0, user_information: Some(vec![octets]) };
    assert_eq!(Acse::connect(wrong), Err(AcseError::WrongUserInformationEncoding));
    let bits = External {
        direct_reference: Some(vec![2, 1, 1]),
        indirect_reference: None,
        encoding: ExternalEncoding::Arbitrary(vec![true, false]),
    };
    let wrong = AareApdu { result: 0, user_information: Some(vec![information(&[1]), bits]) };
    assert_eq!(Acse::connect(wrong), Err(AcseError::WrongUserInformationEncoding));
}

#[test]
fn presentation_error_becomes_acse_error() {
    assert_eq!(
        AcseError::from(PresentationError::MissingPdv),
        AcseError::PresentationLayer { source: PresentationError::MissingPdv }
    );
}
