use iec61850::mms::cotp::{
    bytes_to_options, confirm_connection, frame_data, options_to_bytes, reassemble,
    request_connection, segment_data, tpkt_body_length, CcTpdu, Cotp, CotpError, CotpOptions,
    CrTpdu, DtTpdu, Eot, Reassembler, Tpkt, TpduSize, TpduType, TselDst, TselSrc,
};

const TEST_DATA_SMALL: &[u8] = b"Hello";
const TEST_DATA_LARGE: &[u8] = b"This is a much longer test message that will be used to test data fragmentation and reassembly in COTP";
const TEST_T_SEL: &[u8] = &[0x00, 0x01];
const TEST_T_SEL_LONG: &[u8] = &[0x00, 0x01, 0x02, 0x03];

#[test]
fn test_tpdu_type_from_u8() {
    assert_eq!(TpduType::from(0xe0), TpduType::CR);
    assert_eq!(TpduType::from(0xd0), TpduType::CC);
    assert_eq!(TpduType::from(0xf0), TpduType::DT);
    assert_eq!(TpduType::from(0x00), TpduType::Invalid);
    assert_eq!(TpduType::from(0xff), TpduType::Invalid);
}

#[test]
fn test_eot_try_from() -> Result<(), CotpError> {
    assert_eq!(Eot::try_from(0x00)?, Eot::NoEot);
    assert_eq!(Eot::try_from(0x80)?, Eot::Eot);
    assert!(Eot::try_from(0x40).is_err());
    assert!(Eot::try_from(0xff).is_err());
    Ok(())
}

#[test]
fn test_tpdu_size_encoding_decoding() {
    let tpdu_size = TpduSize { value: 13 };
    let bytes = tpdu_size.to_bytes();
    assert_eq!(bytes, [0xc0, 0x01, 13]);

    let decoded = TpduSize::from_bytes(bytes).unwrap();
    assert_eq!(decoded.value, 13);
}

#[test]
fn test_tpdu_size_invalid_encoding() {
    let invalid_bytes = [0xc1, 0x01, 13]; // Wrong option type
    assert!(TpduSize::from_bytes(invalid_bytes).is_err());

    let invalid_bytes = [0xc0, 0x02, 13]; // Wrong length
    assert!(TpduSize::from_bytes(invalid_bytes).is_err());
}

#[test]
fn test_tsel_dst_encoding_decoding() {
    let tsel_dst = TselDst { value: TEST_T_SEL.to_vec() };
    let bytes = tsel_dst.to_bytes();
    assert_eq!(bytes, vec![0xc2, 0x02, 0x00, 0x01]);

    let decoded = TselDst::from_bytes(&bytes).unwrap();
    assert_eq!(decoded.value, TEST_T_SEL);
}

#[test]
fn test_tsel_dst_long_encoding_decoding() {
    let tsel_dst = TselDst { value: TEST_T_SEL_LONG.to_vec() };
    let bytes = tsel_dst.to_bytes();
    assert_eq!(bytes, vec![0xc2, 0x04, 0x00, 0x01, 0x02, 0x03]);

    let decoded = TselDst::from_bytes(&bytes).unwrap();
    assert_eq!(decoded.value, TEST_T_SEL_LONG);
}

#[test]
fn test_tsel_src_encoding_decoding() {
    let tsel_src = TselSrc { value: TEST_T_SEL.to_vec() };
    let bytes = tsel_src.to_bytes();
    assert_eq!(bytes, vec![0xc1, 0x02, 0x00, 0x01]);

    let decoded = TselSrc::from_bytes(&bytes).unwrap();
    assert_eq!(decoded.value, TEST_T_SEL);
}

#[test]
fn test_dt_tpdu_encoding_decoding() {
    let dt_tpdu = DtTpdu::new(Eot::Eot, TEST_DATA_SMALL.to_vec());
    let bytes = dt_tpdu.to_bytes();
    assert_eq!(bytes[0], 0x02); // LI
    assert_eq!(bytes[1], 0xf0); // DT type
    assert_eq!(bytes[2], 0x80); // EOT
    assert_eq!(&bytes[3..], TEST_DATA_SMALL);

    let decoded = DtTpdu::from_bytes(&bytes).unwrap();
    assert_eq!(decoded.eot, Eot::Eot);
    assert_eq!(decoded.data, TEST_DATA_SMALL);
}

#[test]
fn test_dt_tpdu_no_eot_encoding_decoding() {
    let dt_tpdu = DtTpdu::new(Eot::NoEot, TEST_DATA_SMALL.to_vec());
    let bytes = dt_tpdu.to_bytes();
    assert_eq!(bytes[0], 0x02); // LI
    assert_eq!(bytes[1], 0xf0); // DT type
    assert_eq!(bytes[2], 0x00); // No EOT
    assert_eq!(&bytes[3..], TEST_DATA_SMALL);

    let decoded = DtTpdu::from_bytes(&bytes).unwrap();
    assert_eq!(decoded.eot, Eot::NoEot);
    assert_eq!(decoded.data, TEST_DATA_SMALL);
}

#[test]
fn test_dt_tpdu_invalid_li() {
    let invalid_bytes = [0x03, 0xf0, 0x80]; // Wrong LI
    assert!(DtTpdu::from_bytes(&invalid_bytes).is_err());
}

#[test]
fn test_dt_tpdu_invalid_type() {
    let invalid_bytes = [0x02, 0xe0, 0x80]; // Wrong type (CR instead of DT)
    assert!(DtTpdu::from_bytes(&invalid_bytes).is_err());
}

#[test]
fn test_cr_tpdu_encoding_decoding() {
    let options = vec![
        CotpOptions::TpduSize(TpduSize { value: 13 }),
        CotpOptions::TSelDst(TselDst { value: TEST_T_SEL.to_vec() }),
        CotpOptions::TSelSrc(TselSrc { value: TEST_T_SEL.to_vec() }),
    ];
    let cr_tpdu = CrTpdu::new(0x1234, 0x5678, options);
    let bytes = cr_tpdu.to_bytes();

    // Verify basic structure
    assert_eq!(bytes[0], 17); // LI = 6 + 3 + 4 + 4 = 17
    assert_eq!(bytes[1], 0xe0); // CR type
    assert_eq!(&bytes[2..4], &[0x12, 0x34]); // dst_ref
    assert_eq!(&bytes[4..6], &[0x56, 0x78]); // src_ref
    assert_eq!(bytes[6], 0x00); // class

    let decoded = CrTpdu::from_bytes(&bytes).unwrap();
    assert_eq!(decoded.dst_ref, 0x1234);
    assert_eq!(decoded.src_ref, 0x5678);
    assert_eq!(decoded.options.len(), 3);
}

#[test]
fn test_cc_tpdu_encoding_decoding() {
    let options = vec![
        CotpOptions::TpduSize(TpduSize { value: 13 }),
        CotpOptions::TSelDst(TselDst { value: TEST_T_SEL.to_vec() }),
    ];
    let cc_tpdu = CcTpdu::new(0x1234, 0x5678, options);
    let bytes = cc_tpdu.to_bytes();

    // Verify basic structure
    assert_eq!(bytes[1], 0xd0); // CC type
    assert_eq!(&bytes[2..4], &[0x12, 0x34]); // dst_ref
    assert_eq!(&bytes[4..6], &[0x56, 0x78]); // src_ref
    assert_eq!(bytes[6], 0x00); // class

    let decoded = CcTpdu::from_bytes(&bytes).unwrap();
    assert_eq!(decoded.dst_ref, 0x1234);
    assert_eq!(decoded.src_ref, 0x5678);
    assert_eq!(decoded.options.len(), 2);
}

#[test]
fn test_cotp_enum_encoding_decoding() {
    // Test CR
    let options = vec![CotpOptions::TpduSize(TpduSize { value: 13 })];
    let cr_tpdu = CrTpdu::new(0x1234, 0x5678, options);
    let cotp = Cotp::Cr(cr_tpdu);
    let bytes = cotp.to_bytes();

    let decoded = Cotp::from_bytes(&bytes).unwrap();
    match decoded {
        Cotp::Cr(decoded_cr) => {
            assert_eq!(decoded_cr.dst_ref, 0x1234);
            assert_eq!(decoded_cr.src_ref, 0x5678);
        }
        _ => panic!("Expected CR TPDU"),
    }

    // Test CC
    let cc_tpdu = CcTpdu::new(0x1234, 0x5678, vec![]);
    let cotp = Cotp::Cc(cc_tpdu);
    let bytes = cotp.to_bytes();

    let decoded = Cotp::from_bytes(&bytes).unwrap();
    match decoded {
        Cotp::Cc(decoded_cc) => {
            assert_eq!(decoded_cc.dst_ref, 0x1234);
            assert_eq!(decoded_cc.src_ref, 0x5678);
        }
        _ => panic!("Expected CC TPDU"),
    }

    // Test DT
    let dt_tpdu = DtTpdu::new(Eot::Eot, TEST_DATA_SMALL.to_vec());
    let cotp = Cotp::Dt(dt_tpdu);
    let bytes = cotp.to_bytes();

    let decoded = Cotp::from_bytes(&bytes).unwrap();
    match decoded {
        Cotp::Dt(decoded_dt) => {
            assert_eq!(decoded_dt.eot, Eot::Eot);
            assert_eq!(decoded_dt.data, TEST_DATA_SMALL);
        }
        _ => panic!("Expected DT TPDU"),
    }
}

#[test]
fn test_tpkt_encoding_decoding() {
    let dt_tpdu = DtTpdu::new(Eot::Eot, TEST_DATA_SMALL.to_vec());
    let cotp = Cotp::Dt(dt_tpdu);
    let tpkt = Tpkt::from_cotp(cotp);
    let bytes = tpkt.to_bytes();

    // Verify TPKT header
    assert_eq!(bytes[0], 0x03); // Version
    assert_eq!(bytes[1], 0x00); // Reserved
    let length = u16::from_be_bytes([bytes[2], bytes[3]]);
    assert_eq!(length, 12); // 4 (TPKT) + 3 (COTP) + 5 (data) = 12

    // Verify COTP part
    assert_eq!(bytes[4], 0x02); // LI
    assert_eq!(bytes[5], 0xf0); // DT type
    assert_eq!(bytes[6], 0x80); // EOT
    assert_eq!(&bytes[7..], TEST_DATA_SMALL);
}

#[test]
fn test_cotp_options_roundtrip() {
    let options = vec![
        CotpOptions::TpduSize(TpduSize { value: 13 }),
        CotpOptions::TSelDst(TselDst { value: TEST_T_SEL.to_vec() }),
        CotpOptions::TSelSrc(TselSrc { value: TEST_T_SEL_LONG.to_vec() }),
    ];

    let bytes = options_to_bytes(&options);
    let decoded = bytes_to_options(&bytes).unwrap();

    assert_eq!(decoded.len(), 3);

    // Verify each option
    match &decoded[0] {
        CotpOptions::TpduSize(tpdu_size) => assert_eq!(tpdu_size.value, 13),
        _ => panic!("Expected TpduSize option"),
    }

    match &decoded[1] {
        CotpOptions::TSelDst(tsel_dst) => assert_eq!(tsel_dst.value, TEST_T_SEL),
        _ => panic!("Expected TSelDst option"),
    }

    match &decoded[2] {
        CotpOptions::TSelSrc(tsel_src) => assert_eq!(tsel_src.value, TEST_T_SEL_LONG),
        _ => panic!("Expected TSelSrc option"),
    }
}

#[test]
fn test_cotp_invalid_type() {
    let invalid_bytes = [0x02, 0x00, 0x80]; // Invalid TPDU type
    assert!(Cotp::from_bytes(&invalid_bytes).is_err());
}

#[test]
fn test_cotp_insufficient_bytes() {
    let short_bytes = [0x02]; // Too short
    assert!(Cotp::from_bytes(&short_bytes).is_err());
}

#[test]
fn test_dt_tpdu_large_data() {
    let dt_tpdu = DtTpdu::new(Eot::Eot, TEST_DATA_LARGE.to_vec());
    let bytes = dt_tpdu.to_bytes();

    let decoded = DtTpdu::from_bytes(&bytes).unwrap();
    assert_eq!(decoded.eot, Eot::Eot);
    assert_eq!(decoded.data, TEST_DATA_LARGE);
}

#[test]
fn test_cr_tpdu_no_options() {
    let cr_tpdu = CrTpdu::new(0x1234, 0x5678, vec![]);
    let bytes = cr_tpdu.to_bytes();

    // Should have LI = 6 (no options)
    assert_eq!(bytes[0], 6);
    assert_eq!(bytes[1], 0xe0); // CR type
    assert_eq!(&bytes[2..4], &[0x12, 0x34]); // dst_ref
    assert_eq!(&bytes[4..6], &[0x56, 0x78]); // src_ref
    assert_eq!(bytes[6], 0x00); // class

    let decoded = CrTpdu::from_bytes(&bytes).unwrap();
    assert_eq!(decoded.dst_ref, 0x1234);
    assert_eq!(decoded.src_ref, 0x5678);
    assert_eq!(decoded.options.len(), 0);
}

#[test]
fn test_cc_tpdu_no_options() {
    let cc_tpdu = CcTpdu::new(0x1234, 0x5678, vec![]);
    let bytes = cc_tpdu.to_bytes();

    // Should have LI = 6 (no options)
    assert_eq!(bytes[0], 6);
    assert_eq!(bytes[1], 0xd0); // CC type
    assert_eq!(&bytes[2..4], &[0x12, 0x34]); // dst_ref
    assert_eq!(&bytes[4..6], &[0x56, 0x78]); // src_ref
    assert_eq!(bytes[6], 0x00); // class

    let decoded = CcTpdu::from_bytes(&bytes).unwrap();
    assert_eq!(decoded.dst_ref, 0x1234);
    assert_eq!(decoded.src_ref, 0x5678);
    assert_eq!(decoded.options.len(), 0);
}

#[test]
fn test_cotp_len_calculation() {
    let dt_tpdu = DtTpdu::new(Eot::Eot, TEST_DATA_SMALL.to_vec());
    let cotp = Cotp::Dt(dt_tpdu);
    assert_eq!(cotp.len(), 8); // 3 (header) + 5 (data)

    let options = vec![CotpOptions::TpduSize(TpduSize { value: 13 })];
    let cr_tpdu = CrTpdu::new(0x1234, 0x5678, options);
    let cotp = Cotp::Cr(cr_tpdu);
    assert_eq!(cotp.len(), 10); // 6 (header) + 3 (tpdu_size) + 1 (li includes options)
}

#[test]
fn test_tpkt_length_calculation() {
    let dt_tpdu = DtTpdu::new(Eot::Eot, TEST_DATA_SMALL.to_vec());
    let cotp = Cotp::Dt(dt_tpdu);
    let tpkt = Tpkt::from_cotp(cotp);

    // TPKT length should be TPKT_HEADER_SIZE + COTP length
    assert_eq!(tpkt.length, 4 + 8); // 4 (TPKT header) + 8 (COTP + data)
}

// Coercion of the requested TPDU size.

#[test]
fn tpdu_size_is_coerced_into_the_legal_range() {
    assert_eq!(TpduSize::new(0).get_value(), 128);
    assert_eq!(TpduSize::new(1).get_value(), 128);
    assert_eq!(TpduSize::new(64).get_value(), 128);
    assert_eq!(TpduSize::new(127).get_value(), 128);
    assert_eq!(TpduSize::new(128).get_value(), 128);
    assert_eq!(TpduSize::new(8192).get_value(), 8192);
    assert_eq!(TpduSize::new(8193).get_value(), 8192);
    assert_eq!(TpduSize::new(u32::MAX).get_value(), 8192);
}

#[test]
fn tpdu_size_is_rounded_down_to_a_power_of_two() {
    assert_eq!(TpduSize::new(255).value, 7);
    assert_eq!(TpduSize::new(256).value, 8);
    assert_eq!(TpduSize::new(1000).get_value(), 512);
    assert_eq!(TpduSize::new(1024).value, 10);
    assert_eq!(TpduSize::new(4095).value, 11);
    assert_eq!(TpduSize::new(4096).value, 12);
    assert_eq!(TpduSize::new(8191).value, 12);
    assert_eq!(TpduSize::calculate_value(2048), 11);
    assert_eq!(TpduSize::len(), 3);
}

#[test]
fn tpdu_size_with_illegal_exponent_is_rejected() {
    assert_eq!(TpduSize::from_bytes([0xc0, 0x01, 6]), Err(CotpError::InvalidTpduSize));
    assert_eq!(TpduSize::from_bytes([0xc0, 0x01, 14]), Err(CotpError::InvalidTpduSize));
    assert_eq!(TpduSize::from_bytes([0xc0, 0x01, 7]), Ok(TpduSize { value: 7 }));
}

// Selector options.

#[test]
fn selector_option_errors() {
    assert_eq!(TselDst::from_bytes(&[]), Err(CotpError::NotEnoughBytes));
    assert_eq!(TselDst::from_bytes(&[0xc1, 0x00]), Err(CotpError::InvalidTselDst));
    assert_eq!(TselSrc::from_bytes(&[0xc2, 0x00]), Err(CotpError::InvalidTselSrc));
    assert_eq!(TselSrc::from_bytes(&[0xc1]), Err(CotpError::NotEnoughBytes));
    assert_eq!(TselSrc::from_bytes(&[0xc1, 0x02, 0x09]), Err(CotpError::NotEnoughBytes));
    let parsed = TselSrc::from_bytes(&[0xc1, 0x01, 0x09, 0xff]).unwrap();
    assert_eq!(parsed.value, vec![0x09]);
    assert_eq!(parsed.len(), 3);
    assert_eq!(TselDst { value: vec![] }.to_bytes(), vec![0xc2, 0x00]);
    assert_eq!(TselDst { value: vec![1, 2, 3] }.len(), 5);
}

// Option lists.

#[test]
fn options_skip_the_additional_option() {
    let bytes = [0xc6, 0x01, 0x05, 0xc0, 0x01, 0x0a];
    let decoded = bytes_to_options(&bytes).unwrap();
    assert_eq!(decoded, vec![CotpOptions::TpduSize(TpduSize { value: 10 })]);
}

#[test]
fn options_reject_unknown_and_truncated() {
    assert_eq!(bytes_to_options(&[0xc5, 0x01, 0x00]), Err(CotpError::InvalidTpduOption));
    assert_eq!(bytes_to_options(&[0xc6, 0x02, 0x00, 0x00]), Err(CotpError::InvalidTpduOption));
    assert_eq!(bytes_to_options(&[0xc6]), Err(CotpError::NotEnoughBytes));
    assert_eq!(bytes_to_options(&[0xc6, 0x01]), Err(CotpError::NotEnoughBytes));
    assert_eq!(bytes_to_options(&[0xc0, 0x01]), Err(CotpError::NotEnoughBytes));
    assert_eq!(bytes_to_options(&[0xc0, 0x02, 0x0a]), Err(CotpError::InvalidTpduSize));
    assert_eq!(bytes_to_options(&[0xc2]), Err(CotpError::NotEnoughBytes));
    assert_eq!(bytes_to_options(&[0xc2, 0x03, 0x01]), Err(CotpError::NotEnoughBytes));
    assert_eq!(bytes_to_options(&[]), Ok(vec![]));
}

#[test]
fn options_round_trip_in_any_order() {
    let options = vec![
        CotpOptions::TSelSrc(TselSrc { value: vec![] }),
        CotpOptions::TSelDst(TselDst { value: vec![0xc0, 0xc1, 0xc2] }),
        CotpOptions::TpduSize(TpduSize { value: 7 }),
        CotpOptions::TSelSrc(TselSrc { value: vec![9; 255] }),
    ];
    let bytes = options_to_bytes(&options);
    assert_eq!(bytes.len(), 2 + 5 + 3 + 257);
    assert_eq!(bytes_to_options(&bytes), Ok(options.clone()));
    assert_eq!(options[1].len(), 5);
    assert_eq!(options[2].to_bytes(), vec![0xc0, 0x01, 0x07]);
}

// CR and CC.

#[test]
fn connect_tpdu_errors() {
    assert_eq!(CrTpdu::from_bytes(&[0x06]), Err(CotpError::NotEnoughBytes));
    assert_eq!(
        CrTpdu::from_bytes(&[0x06, 0xd0, 0, 0, 0, 1, 0]),
        Err(CotpError::InvalidTpduType { value: 0xd0, expected: TpduType::CR })
    );
    assert_eq!(
        CcTpdu::from_bytes(&[0x06, 0xe0, 0, 0, 0, 1, 0]),
        Err(CotpError::InvalidTpduType { value: 0xe0, expected: TpduType::CC })
    );
    assert_eq!(CcTpdu::from_bytes(&[0x06, 0xd0, 0, 0, 0]), Err(CotpError::NotEnoughBytes));
    assert_eq!(CcTpdu::from_bytes(&[0x05, 0xd0, 0, 0, 0, 1]), Err(CotpError::NotEnoughBytes));
    assert_eq!(CcTpdu::from_bytes(&[0x09, 0xd0, 0, 0, 0, 1, 0]), Err(CotpError::NotEnoughBytes));
    assert_eq!(
        CcTpdu::from_bytes(&[0x07, 0xd0, 0, 0, 0, 1, 0, 0xaa]),
        Err(CotpError::InvalidTpduOption)
    );
    let cc = CcTpdu::from_bytes(&[0x06, 0xd0, 0, 1, 0, 2, 0, 0xaa]).unwrap();
    assert_eq!(cc, CcTpdu { li: 6, dst_ref: 1, src_ref: 2, options: vec![] });
    assert_eq!(cc.len(), 7);
}

#[test]
fn connect_tpdu_round_trip() {
    let options = vec![
        CotpOptions::TpduSize(TpduSize { value: 10 }),
        CotpOptions::TSelSrc(TselSrc { value: vec![7, 8, 9] }),
    ];
    let cr = CrTpdu::new(0xabcd, 0x00ff, options.clone());
    assert_eq!(cr.li, 14);
    assert_eq!(CrTpdu::from_bytes(&cr.to_bytes()), Ok(cr.clone()));
    assert_eq!(cr.len(), 15);
    let cc = CcTpdu::new(0x0100, 0xffff, options);
    assert_eq!(CcTpdu::from_bytes(&cc.to_bytes()), Ok(cc));
}

#[test]
fn length_indicator_wraps_modulo_256() {
    let options = vec![CotpOptions::TSelDst(TselDst { value: vec![0; 300] })];
    let cr = CrTpdu::new(0, 1, options);
    assert_eq!(cr.li, ((6 + 302) % 256) as u8);
    assert_eq!(cr.to_bytes()[8], (300 % 256) as u8);
}

// DT.

#[test]
fn dt_tpdu_errors() {
    assert_eq!(DtTpdu::from_bytes(&[]), Err(CotpError::NotEnoughBytes));
    assert_eq!(
        DtTpdu::from_bytes(&[0x03, 0xf0, 0x80]),
        Err(CotpError::InvalidLiValue { value: 0x03, expected: 0x02 })
    );
    assert_eq!(DtTpdu::from_bytes(&[0x02]), Err(CotpError::NotEnoughBytes));
    assert_eq!(
        DtTpdu::from_bytes(&[0x02, 0xe0, 0x80]),
        Err(CotpError::InvalidTpduType { value: 0xe0, expected: TpduType::DT })
    );
    assert_eq!(DtTpdu::from_bytes(&[0x02, 0xf0]), Err(CotpError::NotEnoughBytes));
    assert_eq!(DtTpdu::from_bytes(&[0x02, 0xf0, 0x40]), Err(CotpError::InvalidEot));
    assert_eq!(
        DtTpdu::from_bytes(&[0x02, 0xf0, 0x80]),
        Ok(DtTpdu { eot: Eot::Eot, data: vec![] })
    );
}

#[test]
fn eot_and_type_codes() {
    assert_eq!(Eot::Eot.code(), 0x80);
    assert_eq!(Eot::NoEot.code(), 0x00);
    assert_eq!(TpduType::CR.code(), 0xe0);
    assert_eq!(TpduType::CC.code(), 0xd0);
    assert_eq!(TpduType::DT.code(), 0xf0);
    assert_eq!(TpduType::Invalid.code(), 0xff);
    assert_eq!(
        Cotp::from_bytes(&[0x02, 0x00, 0x80]),
        Err(CotpError::InvalidTpduType { value: 0x00, expected: TpduType::Invalid })
    );
}

// TPKT.

#[test]
fn tpkt_header_is_checked() {
    assert_eq!(tpkt_body_length(&[0x03, 0x00, 0x00, 0x16]), Ok(18));
    assert_eq!(tpkt_body_length(&[0x03, 0x00, 0xff, 0xff]), Ok(65531));
    assert_eq!(tpkt_body_length(&[0x03, 0x00, 0x00, 0x04]), Ok(0));
    assert_eq!(tpkt_body_length(&[0x02, 0x00, 0x00, 0x16]), Err(CotpError::InvalidTpktVersion));
    assert_eq!(tpkt_body_length(&[0x03, 0x01, 0x00, 0x16]), Err(CotpError::InvalidTpktVersion));
    assert_eq!(tpkt_body_length(&[0x03, 0x00, 0x00, 0x03]), Err(CotpError::NotEnoughBytes));
}

#[test]
fn tpkt_round_trip() {
    let payload: Vec<u8> = (0..1000u32).map(|i| (i % 251) as u8).collect();
    let tpkt = Tpkt::from_cotp(Cotp::Dt(DtTpdu::new(Eot::NoEot, payload.clone())));
    let bytes = tpkt.to_bytes();
    assert_eq!(&bytes[0..4], &[0x03, 0x00, 0x03, 0xef]);
    assert_eq!(bytes.len(), 1007);
    assert_eq!(Tpkt::from_bytes(&bytes), Ok(tpkt));
    assert_eq!(Tpkt::from_bytes(&bytes[..1006]), Err(CotpError::NotEnoughBytes));
    assert_eq!(Tpkt::from_bytes(&bytes[..3]), Err(CotpError::NotEnoughBytes));
}

#[test]
fn tpkt_round_trip_at_the_largest_payload() {
    let payload = vec![0x5a_u8; 65528];
    let tpkt = Tpkt::from_cotp(Cotp::Dt(DtTpdu::new(Eot::Eot, payload)));
    assert_eq!(tpkt.length, 65535);
    let bytes = tpkt.to_bytes();
    assert_eq!(&bytes[0..4], &[0x03, 0x00, 0xff, 0xff]);
    assert_eq!(Tpkt::from_bytes(&bytes), Ok(tpkt));
}

// Connection establishment.

#[test]
fn connection_request_golden_bytes() {
    let bytes = request_connection(8192, &[0x00, 0x01], &[0x00, 0x01]).unwrap();
    assert_eq!(
        bytes,
        vec![
            0x03, 0x00, 0x00, 0x16, 0x11, 0xE0, 0x00, 0x00, 0x00, 0x01, 0x00, 0xC0, 0x01, 0x0D,
            0xC2, 0x02, 0x00, 0x01, 0xC1, 0x02, 0x00, 0x01
        ]
    );
}

#[test]
fn connection_request_rejects_long_selectors() {
    assert_eq!(request_connection(8192, &[0; 17], &[0; 17]), Err(CotpError::InvalidTselDst));
    assert_eq!(request_connection(8192, &[0; 16], &[0; 17]), Err(CotpError::InvalidTselSrc));
    assert!(request_connection(8192, &[0; 16], &[0; 16]).is_ok());
}

#[test]
fn connection_confirm_gives_the_tpdu_size() {
    let cc = Cotp::Cc(CcTpdu::new(
        1,
        0x4431,
        vec![
            CotpOptions::TSelDst(TselDst { value: vec![0, 1] }),
            CotpOptions::TpduSize(TpduSize { value: 10 }),
            CotpOptions::TpduSize(TpduSize { value: 7 }),
        ],
    ));
    assert_eq!(confirm_connection(&cc, 1), Ok(1024));
    assert_eq!(confirm_connection(&cc, 2), Err(CotpError::ConnectionFailed));
    let bare = Cotp::Cc(CcTpdu::new(1, 5, vec![]));
    assert_eq!(confirm_connection(&bare, 1), Ok(8192));
    let cr = Cotp::Cr(CrTpdu::new(1, 5, vec![]));
    assert_eq!(confirm_connection(&cr, 1), Err(CotpError::WrongCotpType));
    let dt = Cotp::Dt(DtTpdu::new(Eot::Eot, vec![]));
    assert_eq!(confirm_connection(&dt, 1), Err(CotpError::WrongCotpType));
    let odd = Cotp::Cc(CcTpdu::new(1, 5, vec![CotpOptions::TpduSize(TpduSize { value: 40 })]));
    assert_eq!(confirm_connection(&odd, 1), Err(CotpError::InvalidTpduSize));
}

// Segmentation and reassembly.

#[test]
fn segmentation_of_130_bytes_at_size_128() {
    let payload: Vec<u8> = (0..130u8).collect();
    let tpdus = segment_data(&payload, 128);
    assert_eq!(tpdus.len(), 2);
    assert_eq!(tpdus[0].eot, Eot::NoEot);
    assert_eq!(tpdus[0].data, payload[..125].to_vec());
    assert_eq!(tpdus[1].eot, Eot::Eot);
    assert_eq!(tpdus[1].data, payload[125..].to_vec());

    let wire = frame_data(&payload, 128);
    assert_eq!(wire.len(), 130 + 2 * 7);
    let first = Tpkt::from_bytes(&wire).unwrap();
    assert_eq!(first.length, 132);
    assert_eq!(first.cotp, Cotp::Dt(tpdus[0].clone()));
    let second = Tpkt::from_bytes(&wire[132..]).unwrap();
    assert_eq!(second.length, 12);
    assert_eq!(second.cotp, Cotp::Dt(tpdus[1].clone()));
}

#[test]
fn segmentation_then_reassembly_gives_the_payload() {
    for size in [128u32, 256, 1024, 8192] {
        for len in [0usize, 1, 124, 125, 126, 250, 251, 5000, 20000] {
            let payload: Vec<u8> = (0..len).map(|i| (i * 7 % 256) as u8).collect();
            let tpdus = segment_data(&payload, size);
            let chunk: usize = size as usize - 3;
            assert_eq!(tpdus.len(), std::cmp::max(1, (len + chunk - 1) / chunk));
            let last = tpdus.len() - 1;
            for (i, tpdu) in tpdus.iter().enumerate() {
                assert_eq!(tpdu.eot == Eot::Eot, i == last);
                assert!(tpdu.data.len() <= chunk);
                if i < last {
                    assert_eq!(tpdu.data.len(), chunk);
                }
            }
            let received: Vec<Cotp> = tpdus.into_iter().map(Cotp::Dt).collect();
            assert_eq!(reassemble(&received), Ok(Some(payload)));
        }
    }
}

#[test]
fn segmentation_of_nothing_gives_one_tpdu_that_ends_the_data_unit() {
    let tpdus = segment_data(&[], 128);
    assert_eq!(tpdus, vec![DtTpdu::new(Eot::Eot, vec![])]);
    assert_eq!(frame_data(&[], 128), vec![0x03, 0x00, 0x00, 0x07, 0x02, 0xF0, 0x80]);
    assert_eq!(frame_data(&[], 8192), vec![0x03, 0x00, 0x00, 0x07, 0x02, 0xF0, 0x80]);
    let received: Vec<Cotp> = tpdus.into_iter().map(Cotp::Dt).collect();
    assert_eq!(reassemble(&received), Ok(Some(vec![])));
    let frame = Tpkt::from_bytes(&frame_data(&[], 128)).unwrap();
    assert_eq!(reassemble(&[frame.cotp]), Ok(Some(vec![])));
    assert_eq!(reassemble(&[]), Ok(None));
}

#[test]
fn a_payload_that_fills_the_tpdus_ends_with_a_full_one() {
    let payload = vec![7u8; 250];
    let tpdus = segment_data(&payload, 128);
    assert_eq!(tpdus.len(), 2);
    assert_eq!(tpdus[0], DtTpdu::new(Eot::NoEot, vec![7u8; 125]));
    assert_eq!(tpdus[1], DtTpdu::new(Eot::Eot, vec![7u8; 125]));
}

#[test]
fn reassembly_step_by_step() {
    let mut gatherer = Reassembler::new();
    let a = Cotp::Dt(DtTpdu::new(Eot::NoEot, vec![1, 2]));
    let b = Cotp::Dt(DtTpdu::new(Eot::NoEot, vec![]));
    let c = Cotp::Dt(DtTpdu::new(Eot::Eot, vec![3]));
    assert_eq!(gatherer.push(&a), Ok(None));
    assert_eq!(gatherer.push(&b), Ok(None));
    assert_eq!(gatherer.data, vec![1, 2]);
    assert_eq!(gatherer.push(&Cotp::Cc(CcTpdu::new(1, 1, vec![]))), Err(CotpError::WrongCotpType));
    assert_eq!(gatherer.data, vec![1, 2]);
    assert_eq!(gatherer.push(&c), Ok(Some(vec![1, 2, 3])));
    assert_eq!(gatherer.data, Vec::<u8>::new());
    assert_eq!(gatherer.push(&c), Ok(Some(vec![3])));
}

#[test]
fn reassembly_stops_at_the_first_end_and_rejects_other_tpdus() {
    let a = Cotp::Dt(DtTpdu::new(Eot::NoEot, vec![1]));
    let end = Cotp::Dt(DtTpdu::new(Eot::Eot, vec![2]));
    let cr = Cotp::Cr(CrTpdu::new(0, 1, vec![]));
    assert_eq!(reassemble(&[a.clone(), end.clone(), cr.clone()]), Ok(Some(vec![1, 2])));
    assert_eq!(reassemble(&[a.clone(), cr, end]), Err(CotpError::WrongCotpType));
    assert_eq!(reassemble(&[a.clone(), a]), Ok(None));
}
