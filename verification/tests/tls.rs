use flowcase_upload_server::tls::{
    build_self_signed_config, config_from_pems, parse_first_cert, parse_private_key,
    self_signed_names, KeyKind, TlsError,
};

#[test]
fn build_self_signed_config_succeeds() {
    let result = build_self_signed_config();
    assert!(
        result.is_ok(),
        "expected self-signed ServerConfig to build, got {:?}",
        result.err()
    );
}

#[test]
fn self_signed_config_is_for_localhost_with_a_pkcs8_key() {
    let built = build_self_signed_config().unwrap();
    assert_eq!(built.names, vec!["localhost".to_string()]);
    assert!(!built.tls.certificate.is_empty());
    assert_eq!(built.tls.key.kind, KeyKind::Pkcs8);
    assert!(!built.tls.key.der.is_empty());
}

#[test]
fn config_serves_the_first_certificate_and_key() {
    let first = rcgen::generate_simple_self_signed(vec!["localhost".to_string()]).unwrap();
    let second = rcgen::generate_simple_self_signed(vec!["localhost".to_string()]).unwrap();
    let certs = format!("{}{}", first.cert.pem(), second.cert.pem());
    let keys = format!("{}{}", first.key_pair.serialize_pem(), second.key_pair.serialize_pem());
    let config = config_from_pems(&certs, &keys).unwrap();
    assert_eq!(config.certificate, first.cert.der().to_vec());
    assert_eq!(config.key.der, first.key_pair.serialize_der());
}

#[test]
fn rcgen_output_round_trips_as_pem_chain() {
    let cert = rcgen::generate_simple_self_signed(vec!["localhost".to_string()])
        .expect("rcgen self-signed");
    let cert_pem = cert.cert.pem();
    let key_pem = cert.key_pair.serialize_pem();

    let cert_der = parse_first_cert(&cert_pem).expect("cert parses back");
    // The certificate must come back as non-empty bytes — anything else
    // means the PEM round-trip silently lost the body.
    assert!(!cert_der.is_empty());

    let key_der = parse_private_key(&key_pem).expect("key parses back");
    match key_der.kind {
        KeyKind::Pkcs1 | KeyKind::Pkcs8 | KeyKind::Sec1 => assert!(!key_der.der.is_empty()),
    }
}

#[test]
fn parsed_pems_are_the_generated_bytes() {
    let cert = rcgen::generate_simple_self_signed(vec!["localhost".to_string()]).unwrap();
    let cert_der = parse_first_cert(&cert.cert.pem()).unwrap();
    assert_eq!(cert_der, cert.cert.der().to_vec());
    let key = parse_private_key(&cert.key_pair.serialize_pem()).unwrap();
    assert_eq!(key.kind, KeyKind::Pkcs8);
    assert_eq!(key.der, cert.key_pair.serialize_der());
}

#[test]
fn first_of_several_certificates_is_taken() {
    let first = rcgen::generate_simple_self_signed(vec!["localhost".to_string()]).unwrap();
    let second = rcgen::generate_simple_self_signed(vec!["example.org".to_string()]).unwrap();
    let both = format!("{}{}", first.cert.pem(), second.cert.pem());
    assert_eq!(parse_first_cert(&both).unwrap(), first.cert.der().to_vec());
    let swapped = format!("{}{}", second.cert.pem(), first.cert.pem());
    assert_eq!(parse_first_cert(&swapped).unwrap(), second.cert.der().to_vec());
    // a key section before the certificates is passed over
    let mixed = format!("{}{}", first.key_pair.serialize_pem(), second.cert.pem());
    assert_eq!(parse_first_cert(&mixed).unwrap(), second.cert.der().to_vec());
}

#[test]
fn malformed_section_after_a_good_certificate_is_an_error() {
    let cert = rcgen::generate_simple_self_signed(vec!["localhost".to_string()]).unwrap();
    let text = format!("{}-----BEGIN CERTIFICATE-----\nAAAA\n", cert.cert.pem());
    assert!(matches!(parse_first_cert(&text), Err(TlsError::CertPem(_))));
}

#[test]
fn self_signed_certificate_names_localhost() {
    assert_eq!(self_signed_names(), vec!["localhost".to_string()]);
}

#[test]
fn pem_problems_are_told_apart() {
    assert!(matches!(parse_first_cert(""), Err(TlsError::NoCertificate)));
    assert!(matches!(parse_private_key(""), Err(TlsError::NoPrivateKey)));
    let broken = "-----BEGIN CERTIFICATE-----\nAAAA\n";
    match parse_first_cert(broken) {
        Err(e @ TlsError::CertPem(_)) => {
            assert_eq!(e.message(), "parsing self-signed cert PEM");
            assert!(!e.detail().unwrap().is_empty());
        }
        other => panic!("unexpected {:?}", other),
    }
    assert!(matches!(parse_private_key(broken), Err(TlsError::KeyPem(_))));

    let cert = rcgen::generate_simple_self_signed(vec!["localhost".to_string()]).unwrap();
    let cert_pem = cert.cert.pem();
    let key_pem = cert.key_pair.serialize_pem();
    // a certificate PEM holds no private key, a key PEM no certificate
    assert!(matches!(parse_private_key(&cert_pem), Err(TlsError::NoPrivateKey)));
    assert!(matches!(parse_first_cert(&key_pem), Err(TlsError::NoCertificate)));

    assert!(config_from_pems(&cert_pem, &key_pem).is_ok());
    assert_eq!(
        config_from_pems("", &key_pem).err().map(|e| e.message()),
        Some("no certificates in self-signed PEM")
    );
    assert!(matches!(config_from_pems(&cert_pem, ""), Err(TlsError::NoPrivateKey)));
    assert!(matches!(config_from_pems(broken, ""), Err(TlsError::CertPem(_))));
    let other = rcgen::generate_simple_self_signed(vec!["localhost".to_string()]).unwrap();
    let other_key = other.key_pair.serialize_pem();
    match config_from_pems(&cert_pem, &other_key) {
        Err(e @ TlsError::BuildConfig(_)) => {
            assert_eq!(e.message(), "building rustls ServerConfig from self-signed pair");
            assert!(e.detail().is_some());
        }
        other => panic!("unexpected {:?}", other.err()),
    }
    assert_eq!(TlsError::NoPrivateKey.detail(), None);
}
