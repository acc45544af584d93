use gung::cert::{
    certificates_of, new_self_signed, self_signed_names, private_key_of, stored_pair, CertError, KeyKind,
};

fn pem_pair() -> (String, Vec<u8>, String, Vec<u8>) {
    let c = rcgen::generate_simple_self_signed(vec!["localhost".to_string()]).unwrap();
    (c.cert.pem(), c.cert.der().to_vec(), c.signing_key.serialize_pem(), c.signing_key.serialize_der())
}

#[test]
fn a_der_certificate_file_holds_one_certificate() {
    assert_eq!(certificates_of(true, vec![1, 2, 3]), Ok(vec![vec![1, 2, 3]]));
}

#[test]
fn a_pem_certificate_file_gives_its_der_certificates() {
    let (cert_pem, cert_der, _, _) = pem_pair();
    let text = format!("{cert_pem}{cert_pem}");
    assert_eq!(certificates_of(false, text.into_bytes()), Ok(vec![cert_der.clone(), cert_der]));
}

#[test]
fn a_pem_file_without_certificates_gives_none() {
    assert_eq!(certificates_of(false, b"just text\n".to_vec()), Ok(Vec::new()));
}

#[test]
fn broken_pem_is_refused() {
    let text = b"-----BEGIN CERTIFICATE-----\n!!!!\n-----END CERTIFICATE-----\n".to_vec();
    assert_eq!(certificates_of(false, text), Err(CertError::InvalidPem));
}

#[test]
fn a_der_key_file_is_taken_as_pkcs8() {
    assert_eq!(private_key_of(true, vec![9, 9]), Ok((KeyKind::Pkcs8, vec![9, 9])));
}

#[test]
fn a_pem_key_file_gives_its_first_key() {
    let (cert_pem, _, key_pem, key_der) = pem_pair();
    let text = format!("{cert_pem}{key_pem}");
    assert_eq!(private_key_of(false, text.into_bytes()), Ok((KeyKind::Pkcs8, key_der)));
    assert_eq!(private_key_of(false, cert_pem.into_bytes()), Err(CertError::NoPrivateKey));
}

#[test]
fn the_stored_pair_is_classified() {
    let (_, cert_der, _, key_der) = pem_pair();
    assert_eq!(
        stored_pair(cert_der.clone(), key_der.clone()),
        Ok((cert_der.clone(), KeyKind::Pkcs8, key_der))
    );
    assert_eq!(stored_pair(cert_der, vec![0, 1, 2]), Err(CertError::UnknownKeyFormat));
}

#[test]
fn a_new_self_signed_pair_can_be_stored_and_read_back() {
    let (cert, kind, key) = new_self_signed().unwrap();
    assert_eq!(kind, KeyKind::Pkcs8);
    assert_eq!(stored_pair(cert.clone(), key.clone()), Ok((cert, KeyKind::Pkcs8, key)));
}

#[test]
fn the_self_signed_certificate_is_for_localhost() {
    assert_eq!(self_signed_names(), vec!["localhost".to_string()]);
}
