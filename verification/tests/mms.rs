use iec61850::mms::cotp::COTP_MAX_TPDU_SIZE;
use iec61850::mms::{ClientConfig, ClientIdentity, Error, MmsObjectClass, TlsClientConfig};

#[test]
fn default_configuration() {
    let config = ClientConfig::default();
    assert_eq!(config.address, "localhost");
    assert_eq!(config.port, 102);
    assert_eq!(config.tpdu_size, COTP_MAX_TPDU_SIZE);
    assert_eq!(config.tpdu_size, 8192);
    assert_eq!(config.local_t_sel, vec![0x00, 0x01]);
    assert_eq!(config.remote_t_sel, vec![0x00, 0x01]);
    assert_eq!(config.local_s_sel, vec![0x00, 0x01]);
    assert_eq!(config.remote_s_sel, vec![0x00, 0x01]);
    assert_eq!(config.local_p_sel, vec![0x00, 0x00, 0x00, 0x01]);
    assert_eq!(config.remote_p_sel, vec![0x00, 0x00, 0x00, 0x01]);
    assert_eq!(config.local_ap_title, Some(vec![1, 1, 1, 999]));
    assert_eq!(config.remote_ap_title, Some(vec![1, 1, 1, 999, 1]));
    assert_eq!(config.local_ae_qualifier, Some(12));
    assert_eq!(config.remote_ae_qualifier, Some(12));
    assert_eq!(config.max_serv_outstanding_calling, 10);
    assert_eq!(config.max_serv_outstanding_called, 10);
    assert_eq!(config.data_structure_nesting_level, 10);
    assert_eq!(config.max_pdu_size, 8192);
    assert_eq!(config.tls, None);
}

#[test]
fn object_class_codes() {
    let all = [
        MmsObjectClass::NamedVariable,
        MmsObjectClass::ScatteredAccess,
        MmsObjectClass::NamedVariableList,
        MmsObjectClass::NamedType,
        MmsObjectClass::Semaphore,
        MmsObjectClass::EventCondition,
        MmsObjectClass::EventAction,
        MmsObjectClass::EventEnrollment,
        MmsObjectClass::Journal,
        MmsObjectClass::Domain,
        MmsObjectClass::ProgramInvocation,
        MmsObjectClass::OperatorStation,
        MmsObjectClass::DataExchange,
        MmsObjectClass::AccessControlList,
    ];
    for (code, class) in all.iter().enumerate() {
        assert_eq!(class.code() as usize, code);
        assert_eq!(MmsObjectClass::try_from(code as u8), Ok(*class));
    }
    assert_eq!(MmsObjectClass::Domain.code(), 9);
    assert_eq!(MmsObjectClass::try_from(14), Err(Error::InvalidObjectClass));
    assert_eq!(MmsObjectClass::try_from(255), Err(Error::InvalidObjectClass));
}

#[test]
fn tls_identity_needs_key_and_certificate() {
    let mut tls = TlsClientConfig {
        client_key: None,
        client_certificate: None,
        server_certificate: Some("ca.pem".to_owned()),
        danger_disable_tls_verify: false,
    };
    assert_eq!(tls.client_identity(), Ok(ClientIdentity::Anonymous));
    tls.client_key = Some("key.pem".to_owned());
    assert_eq!(tls.client_identity(), Err(Error::IncompleteClientIdentity));
    tls.client_certificate = Some("cert.pem".to_owned());
    assert_eq!(tls.client_identity(), Ok(ClientIdentity::KeyAndCertificate));
    tls.client_key = None;
    assert_eq!(tls.client_identity(), Err(Error::IncompleteClientIdentity));
}

#[test]
fn configuration_is_checked_before_it_is_used() {
    assert_eq!(ClientConfig::default().check(), Ok(()));

    let long = vec![0u8; 17];
    let fits = vec![0u8; 16];
    let mut config = ClientConfig::default();
    config.local_s_sel = long.clone();
    assert_eq!(config.check(), Err(Error::SelectorTooLong));
    config.local_s_sel = fits.clone();
    assert_eq!(config.check(), Ok(()));
    config.remote_s_sel = long.clone();
    assert_eq!(config.check(), Err(Error::SelectorTooLong));
    config.remote_s_sel = fits.clone();
    config.local_t_sel = long.clone();
    assert_eq!(config.check(), Err(Error::SelectorTooLong));
    config.local_t_sel = fits.clone();
    config.remote_t_sel = long.clone();
    assert_eq!(config.check(), Err(Error::SelectorTooLong));
    config.remote_t_sel = fits.clone();
    config.local_p_sel = long.clone();
    assert_eq!(config.check(), Err(Error::SelectorTooLong));
    config.local_p_sel = fits.clone();
    config.remote_p_sel = long.clone();
    assert_eq!(config.check(), Err(Error::SelectorTooLong));
    config.remote_p_sel = fits;
    assert_eq!(config.check(), Ok(()));

    config.max_pdu_size = 63;
    assert_eq!(config.check(), Err(Error::PduSizeTooSmall));
    config.remote_p_sel = long;
    assert_eq!(config.check(), Err(Error::SelectorTooLong));
    config.remote_p_sel = vec![];
    config.max_pdu_size = 64;
    assert_eq!(config.check(), Ok(()));

    config.tls = Some(TlsClientConfig {
        client_key: Some("key.pem".to_owned()),
        client_certificate: None,
        server_certificate: None,
        danger_disable_tls_verify: true,
    });
    assert_eq!(config.check(), Err(Error::IncompleteClientIdentity));
    config.tls = Some(TlsClientConfig {
        client_key: Some("key.pem".to_owned()),
        client_certificate: Some("cert.pem".to_owned()),
        server_certificate: None,
        danger_disable_tls_verify: false,
    });
    assert_eq!(config.check(), Ok(()));
}
