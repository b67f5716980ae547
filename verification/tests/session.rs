use iec61850::mms::cotp::CotpError;
use iec61850::mms::session::{SessionEvent, SessionState};
use iec61850::mms::session::{
    parse_connect_accept_item, AbortSpdu, AcceptSpdu, ConnectSpdu, DataSpdu, DisconnectSpdu,
    FinishSpdu, RefuseSpdu, SSelector, Session, SessionError, SessionRequirement, Spdu, SpduType,
};

#[test]
fn test_sselector_new() {
    let data = [1, 2, 3, 4];
    let selector = SSelector::from_bytes(&data).unwrap();
    assert_eq!(selector.value.len(), 4);
    assert_eq!(selector.value, &data);
}

#[test]
fn test_sselector_too_large() {
    let data = [0_u8; 17]; // Too large
    let result = SSelector::from_bytes(&data);
    assert!(result.is_err());
}

#[test]
fn test_data_spdu_roundtrip() {
    let payload = b"Hello, World!";
    let spdu = DataSpdu::new(payload.to_vec());
    let bytes = spdu.to_bytes();

    let parsed = DataSpdu::from_bytes(&bytes).unwrap();
    assert_eq!(parsed.data, payload);
}

#[test]
fn test_connect_spdu_roundtrip() {
    let calling = SSelector::from_bytes(&[0, 1, 2, 3]).unwrap();
    let called = SSelector::from_bytes(&[4, 5, 6, 7]).unwrap();
    let requirement = SessionRequirement::Duplex;
    let user_data = b"ACSE data".to_vec();

    let spdu = ConnectSpdu::new(calling.clone(), called.clone(), requirement, user_data.clone());
    let bytes = spdu.to_bytes();

    let parsed = ConnectSpdu::from_bytes(&bytes).unwrap();
    assert_eq!(parsed.calling_session_selector, Some(calling));
    assert_eq!(parsed.called_session_selector, Some(called));
    assert_eq!(parsed.session_requirement, requirement);
    assert_eq!(parsed.data, user_data);
}

#[test]
fn test_finish_spdu_roundtrip() {
    let user_data = b"Goodbye".to_vec();
    let spdu = FinishSpdu::new(user_data.clone());
    let bytes = spdu.to_bytes();

    let parsed = FinishSpdu::from_bytes(&bytes).unwrap();
    assert_eq!(parsed.data, user_data);
}

#[test]
fn test_abort_spdu_roundtrip() {
    let user_data = b"Error".to_vec();
    let spdu = AbortSpdu::new(user_data.clone());
    let bytes = spdu.to_bytes();

    let parsed = AbortSpdu::from_bytes(&bytes).unwrap();
    assert_eq!(parsed.user_data, user_data);
}

#[test]
fn test_spdu_enum_parsing() {
    let data_spdu = DataSpdu::new(b"test".to_vec());
    let bytes = data_spdu.to_bytes();

    let parsed = Spdu::from_bytes(&bytes).unwrap();
    match parsed {
        Spdu::Data(d) => assert_eq!(d.data, b"test"),
        _ => panic!("Wrong SPDU type"),
    }
}

#[test]
fn test_session_requirement_flags() {
    assert_eq!(SessionRequirement::HalfDuplex.code(), 0x0001);
    assert_eq!(SessionRequirement::Duplex.code(), 0x0002);
    assert_eq!(SessionRequirement::ExpeditedData.code(), 0x0004);
}

#[test]
fn test_invalid_spdu_type() {
    let invalid_bytes = vec![0xFF, 0x00];
    let result = Spdu::from_bytes(&invalid_bytes);
    assert!(result.is_err());
}

// Codes.

#[test]
fn session_requirement_codes_round_trip() {
    let all = [
        (SessionRequirement::HalfDuplex, 0x0001u16),
        (SessionRequirement::Duplex, 0x0002),
        (SessionRequirement::ExpeditedData, 0x0004),
        (SessionRequirement::MinorSync, 0x0008),
        (SessionRequirement::MajorSync, 0x0010),
        (SessionRequirement::Resync, 0x0020),
        (SessionRequirement::ActivityMgmt, 0x0080),
        (SessionRequirement::NegotiatedRelease, 0x0100),
    ];
    for (requirement, code) in all {
        assert_eq!(requirement.code(), code);
        assert_eq!(SessionRequirement::try_from(code), Ok(requirement));
    }
    assert_eq!(
        SessionRequirement::try_from(0x0040),
        Err(SessionError::InvalidSessionRequirement { value: 0x0040 })
    );
    assert_eq!(
        SessionRequirement::try_from(0x0003),
        Err(SessionError::InvalidSessionRequirement { value: 0x0003 })
    );
}

#[test]
fn spdu_type_codes() {
    let all = [
        (SpduType::GiveTokenData, 0x01u8),
        (SpduType::NotFinished, 0x08),
        (SpduType::Finish, 0x09),
        (SpduType::Disconnect, 0x0A),
        (SpduType::Refuse, 0x0C),
        (SpduType::Connect, 0x0D),
        (SpduType::Accept, 0x0E),
        (SpduType::Abort, 0x19),
    ];
    for (spdu_type, code) in all {
        assert_eq!(spdu_type.code(), code);
        assert_eq!(SpduType::from(code), spdu_type);
    }
    assert_eq!(SpduType::from(0x02), SpduType::Invalid);
    assert_eq!(SpduType::Invalid.code(), 0xFF);
}

#[test]
fn cotp_error_becomes_session_error() {
    assert_eq!(
        SessionError::from(CotpError::InvalidEot),
        SessionError::CotpLayer { source: CotpError::InvalidEot }
    );
}

// Selectors.

#[test]
fn selector_of_sixteen_bytes_is_the_longest() {
    assert_eq!(SSelector::from_bytes(&[7; 16]), Ok(SSelector { value: vec![7; 16] }));
    assert_eq!(SSelector::from_bytes(&[7; 17]), Err(SessionError::InvalidSelectorSize));
    assert_eq!(SSelector::from_bytes(&[]), Ok(SSelector { value: vec![] }));
    assert_eq!(SSelector { value: vec![0, 1] }.to_bytes(), vec![2, 0, 1]);
    assert_eq!(SSelector::from_parameter(&[2, 0, 1]), Ok(SSelector { value: vec![0, 1] }));
    assert_eq!(SSelector::from_parameter(&[0]), Ok(SSelector { value: vec![] }));
    assert_eq!(SSelector::from_parameter(&[]), Err(SessionError::InvalidParameterLength));
    assert_eq!(SSelector::from_parameter(&[1, 0, 1]), Err(SessionError::InvalidParameterLength));
    let mut long = vec![17];
    long.extend_from_slice(&[7; 17]);
    assert_eq!(SSelector::from_parameter(&long), Err(SessionError::InvalidSelectorSize));
    assert_eq!(SSelector { value: vec![9, 8] }.duplicate(), SSelector { value: vec![9, 8] });
}

#[test]
fn session_rejects_long_selectors() {
    assert_eq!(Session::new(&[0; 17], &[0, 1]), Err(SessionError::InvalidSelectorSize));
    assert_eq!(Session::new(&[0, 1], &[0; 17]), Err(SessionError::InvalidSelectorSize));
    let session = Session::new(&[0; 16], &[1; 16]).unwrap();
    assert_eq!(session.local_s_sel.value, vec![0; 16]);
    assert_eq!(session.remote_s_sel.value, vec![1; 16]);
}

// CONNECT.

#[test]
fn connect_spdu_golden_bytes() {
    let session = Session::new(&[0x00, 0x01], &[0x00, 0x01]).unwrap();
    let user_data = [0xAA, 0xBB, 0xCC];
    let bytes = session.connect(&user_data);
    assert_eq!(
        bytes,
        vec![
            0x0D, 27, // SI, LI
            0x05, 0x06, 0x13, 0x01, 0x00, 0x16, 0x01, 0x02, // connect/accept item
            0x14, 0x02, 0x02, 0x00, // duplex
            0x33, 0x03, 0x02, 0x00, 0x01, // calling
            0x34, 0x03, 0x02, 0x00, 0x01, // called
            0xC1, 0x03, 0xAA, 0xBB, 0xCC, // user data
        ]
    );
    let parsed = Spdu::from_bytes(&bytes).unwrap();
    assert_eq!(
        parsed,
        Spdu::Connect(ConnectSpdu::new(
            SSelector { value: vec![0, 1] },
            SSelector { value: vec![0, 1] },
            SessionRequirement::Duplex,
            user_data.to_vec(),
        ))
    );
}

#[test]
fn connect_spdu_without_selectors_round_trips() {
    let spdu = ConnectSpdu {
        calling_session_selector: None,
        called_session_selector: Some(SSelector { value: vec![] }),
        session_requirement: SessionRequirement::HalfDuplex,
        protocol_options: 0,
        data: vec![],
    };
    let bytes = spdu.to_bytes();
    assert_eq!(bytes.len(), 2 + 8 + 4 + 3 + 2);
    assert_eq!(ConnectSpdu::from_bytes(&bytes), Ok(spdu));
}

#[test]
fn connect_spdu_ignores_other_parameters() {
    let bytes = [
        0x0D, 0x00, // header, not looked at
        0x01, 0x02, 0xEE, 0xEE, // connection identifier
        0x05, 0x06, 0x13, 0x01, 0x07, 0x16, 0x01, 0x02, // item
        0x19, 0x01, 0x00, // enclosure item
        0x14, 0x02, 0x00, 0x01, // negotiated release
        0x34, 0x02, 0x01, 0x09, // called
        0x34, 0x02, 0x01, 0x0A, // called again: the later one holds
        0xC1, 0x01, 0x55, // user data
        0xFF, // after the user data nothing is read
    ];
    assert_eq!(
        ConnectSpdu::from_bytes(&bytes),
        Ok(ConnectSpdu {
            calling_session_selector: None,
            called_session_selector: Some(SSelector { value: vec![0x0A] }),
            session_requirement: SessionRequirement::NegotiatedRelease,
            protocol_options: 7,
            data: vec![0x55],
        })
    );
}

#[test]
fn connect_spdu_errors() {
    let item = [0x05, 0x06, 0x13, 0x01, 0x00, 0x16, 0x01, 0x02];
    let duplex = [0x14, 0x02, 0x02, 0x00];
    let build = |parts: &[&[u8]]| {
        let mut bytes = vec![0x0D, 0x00];
        for part in parts {
            bytes.extend_from_slice(part);
        }
        bytes
    };
    assert_eq!(ConnectSpdu::from_bytes(&[]), Err(SessionError::MissingSessionRequirement));
    assert_eq!(
        ConnectSpdu::from_bytes(&build(&[&item, &[0xC1, 0x00]])),
        Err(SessionError::MissingSessionRequirement)
    );
    assert_eq!(
        ConnectSpdu::from_bytes(&build(&[&duplex, &[0xC1, 0x00]])),
        Err(SessionError::MissingProtocolOptions)
    );
    assert_eq!(
        ConnectSpdu::from_bytes(&build(&[&item, &duplex])),
        Err(SessionError::MissingUserData)
    );
    assert_eq!(
        ConnectSpdu::from_bytes(&build(&[&item, &[0x14]])),
        Err(SessionError::UnexpectedEndOfMessage)
    );
    assert_eq!(
        ConnectSpdu::from_bytes(&build(&[&[0x14, 0x01, 0x02]])),
        Err(SessionError::InvalidParameterLength)
    );
    assert_eq!(
        ConnectSpdu::from_bytes(&build(&[&[0x14, 0x02, 0x02]])),
        Err(SessionError::NotEnoughBytes)
    );
    assert_eq!(
        ConnectSpdu::from_bytes(&build(&[&[0x14, 0x02, 0x03, 0x00]])),
        Err(SessionError::InvalidSessionRequirement { value: 3 })
    );
    assert_eq!(
        ConnectSpdu::from_bytes(&build(&[&[0x33, 0x02, 0x00]])),
        Err(SessionError::NotEnoughBytes)
    );
    let mut long = vec![0x34, 18, 17];
    long.extend_from_slice(&[0; 17]);
    assert_eq!(
        ConnectSpdu::from_bytes(&build(&[&long])),
        Err(SessionError::InvalidSelectorSize)
    );
    assert_eq!(
        ConnectSpdu::from_bytes(&build(&[&[0x33, 0x00]])),
        Err(SessionError::InvalidParameterLength)
    );
    assert_eq!(
        ConnectSpdu::from_bytes(&build(&[&[0x33, 0x02, 0x00, 0x01]])),
        Err(SessionError::InvalidParameterLength)
    );
    assert_eq!(
        ConnectSpdu::from_bytes(&build(&[&[0x34, 0x03, 0x03, 0x00, 0x01]])),
        Err(SessionError::InvalidParameterLength)
    );
    assert_eq!(
        ConnectSpdu::from_bytes(&build(&[&[0xC1, 0x02, 0x00]])),
        Err(SessionError::NotEnoughBytes)
    );
    assert_eq!(
        ConnectSpdu::from_bytes(&build(&[&[0x05, 0x06, 0x13, 0x01]])),
        Err(SessionError::NotEnoughBytes)
    );
}

#[test]
fn connect_accept_item_errors() {
    assert_eq!(parse_connect_accept_item(&[0x13, 0x01, 0x05, 0x16, 0x01, 0x02]), Ok(5));
    assert_eq!(parse_connect_accept_item(&[0x16, 0x01, 0x02, 0x13, 0x01, 0x09]), Ok(9));
    assert_eq!(
        parse_connect_accept_item(&[0x15, 0x02, 0, 0, 0x13, 0x01, 0x01, 0x16, 0x01, 0x02]),
        Ok(1)
    );
    assert_eq!(
        parse_connect_accept_item(&[0x13, 0x01, 0x00, 0x16, 0x01, 0x01]),
        Err(SessionError::InvalidVersion { value: 1 })
    );
    assert_eq!(
        parse_connect_accept_item(&[0x13, 0x01, 0x00]),
        Err(SessionError::MissingRequiredParameters)
    );
    assert_eq!(parse_connect_accept_item(&[]), Err(SessionError::MissingRequiredParameters));
    assert_eq!(parse_connect_accept_item(&[0x13]), Err(SessionError::UnexpectedEndOfMessage));
    assert_eq!(
        parse_connect_accept_item(&[0x13, 0x02, 0x00, 0x00]),
        Err(SessionError::InvalidParameterLength)
    );
    assert_eq!(
        parse_connect_accept_item(&[0x16, 0x00]),
        Err(SessionError::InvalidParameterLength)
    );
    assert_eq!(parse_connect_accept_item(&[0x13, 0x01]), Err(SessionError::NotEnoughBytes));
    assert_eq!(
        parse_connect_accept_item(&[0x99, 0x00]),
        Err(SessionError::InvalidParameter { value: 0xFF })
    );
    assert_eq!(
        parse_connect_accept_item(&[0x13, 0x01, 0x03, 0x16, 0x01, 0x02, 0x32, 0x09]),
        Ok(3)
    );
}

// ACCEPT.

#[test]
fn accept_spdu_round_trip() {
    let spdu = AcceptSpdu::new(
        SSelector { value: vec![0, 1] },
        SessionRequirement::Duplex,
        3,
        b"CPA".to_vec(),
    );
    let bytes = spdu.to_bytes();
    assert_eq!(
        bytes,
        vec![
            0x0E, 22, 0x05, 0x06, 0x13, 0x01, 0x03, 0x16, 0x01, 0x02, 0x14, 0x02, 0x02, 0x00, 0x34,
            0x03, 0x02, 0x00, 0x01, 0xC1, 0x03, b'C', b'P', b'A'
        ]
    );
    assert_eq!(AcceptSpdu::from_bytes(&bytes), Ok(spdu.clone()));
    assert_eq!(Spdu::from_bytes(&bytes), Ok(Spdu::Accept(spdu)));
    assert_eq!(Session::accept(&bytes), Ok(b"CPA".to_vec()));
}

#[test]
fn accept_requires_version_two() {
    let bytes = [
        0x0E, 14, 0x05, 0x06, 0x13, 0x01, 0x00, 0x16, 0x01, 0x01, 0x14, 0x02, 0x02, 0x00, 0xC1,
        0x00,
    ];
    assert_eq!(Session::accept(&bytes), Err(SessionError::InvalidVersion { value: 1 }));
}

#[test]
fn accept_rejects_other_spdus() {
    let refuse = RefuseSpdu::new(2).to_bytes();
    assert_eq!(Session::accept(&refuse), Err(SessionError::InvalidCotpResponse));
    let data = Session::send_data(vec![1, 2, 3]);
    assert_eq!(Session::accept(&data), Err(SessionError::InvalidCotpResponse));
    assert_eq!(Session::accept(&[0x0E]), Err(SessionError::NotEnoughBytes));
    assert_eq!(Session::accept(&[0x0E, 0x05, 0x00]), Err(SessionError::InvalidLength));
}

// DATA.

#[test]
fn data_spdu_has_the_fixed_prelude() {
    let wire = Session::send_data(vec![0xDE, 0xAD]);
    assert_eq!(wire, vec![0x01, 0x00, 0x01, 0x00, 0xDE, 0xAD]);
    assert_eq!(Session::receive_data(&wire), Ok(vec![0xDE, 0xAD]));
    assert_eq!(Session::send_data(vec![]), vec![0x01, 0x00, 0x01, 0x00]);
    assert_eq!(Session::receive_data(&[0x01, 0x00, 0x01, 0x00]), Ok(vec![]));
}

#[test]
fn data_spdu_errors() {
    assert_eq!(DataSpdu::from_bytes(&[0x01, 0x00, 0x01]), Err(SessionError::MessageTooShort));
    assert_eq!(DataSpdu::from_bytes(&[0x02, 0x00, 0x01, 0x00]), Err(SessionError::InvalidDataSpdu));
    assert_eq!(DataSpdu::from_bytes(&[0x01, 0x01, 0x01, 0x00]), Err(SessionError::InvalidDataSpdu));
    assert_eq!(DataSpdu::from_bytes(&[0x01, 0x00, 0x02, 0x00]), Err(SessionError::InvalidDataSpdu));
    assert_eq!(DataSpdu::from_bytes(&[0x01, 0x00, 0x01, 0x01]), Err(SessionError::InvalidDataSpdu));
    assert_eq!(Session::receive_data(&[0x01, 0x00]), Err(SessionError::MessageTooShort));
    let finish = FinishSpdu::new(vec![1]).to_bytes();
    assert_eq!(Session::receive_data(&finish), Err(SessionError::InvalidCotpResponse));
    let abort = AbortSpdu::new(vec![]).to_bytes();
    assert_eq!(Session::receive_data(&abort), Err(SessionError::InvalidCotpResponse));
    assert_eq!(
        Session::receive_data(&[0x77, 0x00]),
        Err(SessionError::InvalidSpduType { value: 0x77 })
    );
    assert_eq!(Session::receive_data(&[0x01]), Err(SessionError::NotEnoughBytes));
}

// FINISH, DISCONNECT, ABORT, REFUSE, NOT FINISHED.

#[test]
fn finish_and_disconnect_bytes() {
    let finish = FinishSpdu::new(vec![1, 2, 3]);
    assert_eq!(finish.to_bytes(), vec![0x09, 5, 0xC1, 3, 1, 2, 3]);
    assert_eq!(Spdu::from_bytes(&finish.to_bytes()), Ok(Spdu::Finish(finish)));
    let disconnect = DisconnectSpdu::new(vec![4]);
    assert_eq!(disconnect.to_bytes(), vec![0x0A, 3, 0xC1, 1, 4]);
    assert_eq!(DisconnectSpdu::from_bytes(&disconnect.to_bytes()), Ok(disconnect.clone()));
    assert_eq!(Spdu::from_bytes(&disconnect.to_bytes()), Ok(Spdu::Disconnect(disconnect)));
}

#[test]
fn finish_parameters() {
    assert_eq!(FinishSpdu::from_bytes(&[0x09]), Err(SessionError::NotEnoughBytes));
    assert_eq!(FinishSpdu::from_bytes(&[0x09, 0x00]), Ok(FinishSpdu { data: vec![] }));
    assert_eq!(
        FinishSpdu::from_bytes(&[0x09, 0x05, 0x11, 0x01, 0x02, 0xC1, 0x09, 0x07]),
        Ok(FinishSpdu { data: vec![0x07] })
    );
    assert_eq!(
        FinishSpdu::from_bytes(&[0x09, 0x01, 0x11]),
        Err(SessionError::UnexpectedEndOfMessage)
    );
    assert_eq!(
        FinishSpdu::from_bytes(&[0x09, 0x03, 0x11, 0x09, 0x00]),
        Ok(FinishSpdu { data: vec![] })
    );
    let mut spdu = FinishSpdu::new(vec![9]);
    assert_eq!(spdu.parse_parameters(&[0x11, 0x00]), Ok(()));
    assert_eq!(spdu.data, vec![9]);
    assert_eq!(spdu.parse_parameters(&[0x11]), Err(SessionError::UnexpectedEndOfMessage));
    assert_eq!(spdu.data, vec![9]);
    assert_eq!(spdu.parse_parameters(&[0xC1, 0x00, 0x05, 0x06]), Ok(()));
    assert_eq!(spdu.data, vec![5, 6]);
}

#[test]
fn abort_and_refuse_bytes() {
    let abort = AbortSpdu::new(vec![0xEE]);
    assert_eq!(abort.to_bytes(), vec![0x19, 6, 0x11, 1, 11, 0xC1, 1, 0xEE]);
    assert_eq!(Spdu::from_bytes(&abort.to_bytes()), Ok(Spdu::Abort(abort)));
    assert_eq!(AbortSpdu::from_bytes(&[0x19, 0, 0, 0, 0, 0]), Err(SessionError::MessageTooShort));
    let refuse = RefuseSpdu::new(0x82);
    assert_eq!(refuse.to_bytes(), vec![0x0C, 8, 0x01, 6, 0x11, 1, 1, 0x32, 1, 0x82]);
    assert_eq!(RefuseSpdu::from_bytes(&refuse.to_bytes()), Ok(refuse));
    assert_eq!(Spdu::from_bytes(&refuse.to_bytes()), Ok(Spdu::Refuse(refuse)));
    assert_eq!(RefuseSpdu::from_bytes(&[0x0C; 9]), Err(SessionError::MessageTooShort));
    assert_eq!(Spdu::NotFinished.to_bytes(), vec![0x08, 0x00]);
    assert_eq!(Spdu::from_bytes(&[0x08, 0x00]), Ok(Spdu::NotFinished));
}

#[test]
fn spdu_length_byte_is_checked() {
    let session = Session::new(&[1], &[2]).unwrap();
    let mut bytes = session.connect(&[9, 9]);
    assert!(Spdu::from_bytes(&bytes).is_ok());
    bytes.push(0);
    assert_eq!(Spdu::from_bytes(&bytes), Err(SessionError::InvalidLength));
    assert_eq!(Spdu::from_bytes(&[0x09, 0x01]), Err(SessionError::InvalidLength));
    assert_eq!(Spdu::from_bytes(&[0x0A, 0x00, 0x00]), Err(SessionError::InvalidLength));
}

#[test]
fn lengths_wrap_modulo_256() {
    let spdu = FinishSpdu::new(vec![0; 300]);
    let bytes = spdu.to_bytes();
    assert_eq!(bytes[1], (302 % 256) as u8);
    assert_eq!(bytes[3], (300 % 256) as u8);
    assert_eq!(FinishSpdu::from_bytes(&bytes), Ok(spdu));
    let abort = AbortSpdu::new(vec![0; 256]);
    assert_eq!(abort.to_bytes()[1], 5);
    assert_eq!(abort.to_bytes()[6], 0);
}

#[test]
fn spdu_encodes_each_variant() {
    let finish = Spdu::Finish(FinishSpdu::new(vec![1]));
    assert_eq!(finish.to_bytes(), vec![0x09, 3, 0xC1, 1, 1]);
    let data = Spdu::Data(DataSpdu::new(vec![1]));
    assert_eq!(data.to_bytes(), vec![0x01, 0x00, 0x01, 0x00, 1]);
}

// States.

#[test]
fn session_states() {
    let closed = SessionState::Closed;
    let connecting = closed.after(SessionEvent::ConnectSent);
    assert_eq!(connecting, SessionState::Connecting);
    let open = connecting.after(SessionEvent::Received(SpduType::Accept));
    assert_eq!(open, SessionState::Open);
    assert_eq!(open.after(SessionEvent::Received(SpduType::GiveTokenData)), SessionState::Open);
    for end in [SpduType::Finish, SpduType::Disconnect, SpduType::Abort, SpduType::Refuse] {
        assert_eq!(open.after(SessionEvent::Received(end)), SessionState::Closed);
        assert_eq!(connecting.after(SessionEvent::Received(end)), SessionState::Closed);
    }
    assert_eq!(open.after(SessionEvent::Failed), SessionState::Closed);
    assert_eq!(connecting.after(SessionEvent::Failed), SessionState::Closed);
    assert_eq!(
        connecting.after(SessionEvent::Received(SpduType::GiveTokenData)),
        SessionState::Closed
    );
    assert_eq!(open.after(SessionEvent::Received(SpduType::Accept)), SessionState::Closed);
    assert_eq!(open.after(SessionEvent::ConnectSent), SessionState::Closed);
    assert_eq!(closed.after(SessionEvent::Received(SpduType::Accept)), SessionState::Closed);
    assert_eq!(closed.after(SessionEvent::Failed), SessionState::Closed);
}
