use kvcache::credentials::{
    load_certificates, load_private_key, select_certificates, select_private_key, CredentialError,
    SectionKind,
};

fn section(label: &str, body: &str) -> String {
    format!("-----BEGIN {}-----\n{}\n-----END {}-----\n", label, body, label)
}

#[test]
fn select_certificates_in_order() {
    let kinds = [SectionKind::Other, SectionKind::Certificate, SectionKind::Pkcs8Key, SectionKind::Certificate];
    assert_eq!(select_certificates(&kinds), Ok(vec![1, 3]));
}

#[test]
fn select_certificates_errors() {
    assert_eq!(select_certificates(&[]), Err(CredentialError::NoCertificate));
    assert_eq!(select_certificates(&[SectionKind::Pkcs1Key]), Err(CredentialError::NoCertificate));
    assert_eq!(
        select_certificates(&[SectionKind::Certificate, SectionKind::Unreadable]),
        Err(CredentialError::UnreadableCertificate)
    );
}

#[test]
fn select_first_private_key() {
    let kinds = [SectionKind::Unreadable, SectionKind::Other, SectionKind::Pkcs8Key, SectionKind::Pkcs1Key];
    assert_eq!(select_private_key(&kinds), Ok(2));
    assert_eq!(select_private_key(&[SectionKind::Pkcs1Key]), Ok(0));
    assert_eq!(
        select_private_key(&[SectionKind::Certificate, SectionKind::Other]),
        Err(CredentialError::NoPrivateKey)
    );
}

#[test]
fn load_certificates_from_pem() {
    let pem = format!("{}{}", section("CERTIFICATE", "AQID"), section("CERTIFICATE", "BAUG"));
    let certs = load_certificates(pem.as_bytes()).unwrap();
    assert_eq!(certs.len(), 2);
    match &certs[1] {
        rustls_pemfile::Item::X509Certificate(c) => assert_eq!(c.as_ref(), &[4u8, 5, 6][..]),
        _ => panic!("not a certificate"),
    }
}

#[test]
fn load_certificates_failures() {
    assert_eq!(load_certificates(b"no pem here").err(), Some(CredentialError::NoCertificate));
    let bad = format!("{}{}", section("CERTIFICATE", "AQID"), section("CERTIFICATE", "!!!!"));
    assert_eq!(load_certificates(bad.as_bytes()).err(), Some(CredentialError::UnreadableCertificate));
}

#[test]
fn load_private_key_takes_first_usable() {
    let pem = format!(
        "{}{}{}",
        section("EC PRIVATE KEY", "AQID"),
        section("RSA PRIVATE KEY", "BAUG"),
        section("PRIVATE KEY", "BwgJ")
    );
    match load_private_key(pem.as_bytes()).unwrap() {
        rustls_pemfile::Item::Pkcs1Key(k) => assert_eq!(k.secret_pkcs1_der(), &[4u8, 5, 6][..]),
        _ => panic!("not the PKCS#1 key"),
    }
}

#[test]
fn load_private_key_missing() {
    let pem = section("CERTIFICATE", "AQID");
    assert_eq!(load_private_key(pem.as_bytes()).err(), Some(CredentialError::NoPrivateKey));
}
