use tls_listener::build_config;
use tls_listener::load::certs;
use tls_listener::load::key;
use tls_listener::pem::KeyKind;
use tls_listener::pem::KeyMaterial;
use tls_listener::tls_config;
use tls_listener::CredentialError;

const B64_ALPHABET: &[u8; 64] = b"ABCDEFGHIJKLMNOPQRSTUVWXYZabcdefghijklmnopqrstuvwxyz0123456789+/";

fn b64(data: &[u8]) -> String {
    let mut out = String::new();
    for chunk in data.chunks(3) {
        let b1 = chunk[0] as u32;
        let b2 = *chunk.get(1).unwrap_or(&0) as u32;
        let b3 = *chunk.get(2).unwrap_or(&0) as u32;
        let n = (b1 << 16) | (b2 << 8) | b3;
        out.push(B64_ALPHABET[(n >> 18) as usize & 63] as char);
        out.push(B64_ALPHABET[(n >> 12) as usize & 63] as char);
        out.push(if chunk.len() > 1 {
            B64_ALPHABET[(n >> 6) as usize & 63] as char
        } else {
            '='
        });
        out.push(if chunk.len() > 2 {
            B64_ALPHABET[n as usize & 63] as char
        } else {
            '='
        });
    }
    out
}

fn wrap_pem(tag: &str, der: &[u8]) -> String {
    format!("-----BEGIN {}-----\n{}\n-----END {}-----\n", tag, b64(der), tag)
}

fn garbage_key() -> KeyMaterial {
    KeyMaterial {
        kind: KeyKind::Rsa,
        der: vec![1u8, 2, 3],
    }
}

#[test]
fn empty_chain_is_incomplete_whatever_the_key() {
    let with_key = build_config(Vec::new(), Some(garbage_key()));
    assert!(matches!(
        with_key,
        Err(CredentialError::IncompleteCredentials)
    ));
    let without_key = build_config(Vec::new(), None);
    assert!(matches!(
        without_key,
        Err(CredentialError::IncompleteCredentials)
    ));
}

#[test]
fn missing_key_is_incomplete_whatever_the_chain() {
    let r = build_config(vec![vec![1u8, 2, 3]], None);
    assert!(matches!(r, Err(CredentialError::IncompleteCredentials)));
}

#[test]
fn rejected_key_is_a_pairing_failure() {
    let r = build_config(vec![vec![1u8, 2, 3]], Some(garbage_key()));
    assert!(matches!(r, Err(CredentialError::KeyCertMismatch)));
}

#[test]
fn generated_credentials_build_a_configuration() {
    let cert = rcgen::generate_simple_self_signed(vec!["localhost".to_string()]).unwrap();
    let cert_der = cert.serialize_der().unwrap();
    let key_der = cert.serialize_private_key_der();
    let cert_pem = wrap_pem("CERTIFICATE", &cert_der);
    let key_pem = wrap_pem("PRIVATE KEY", &key_der);

    let chain = certs(cert_pem.as_bytes()).unwrap();
    assert_eq!(chain.len(), 1);
    assert_eq!(chain[0], cert_der);

    let selected = key(key_pem.as_bytes()).unwrap().unwrap();
    assert_eq!(selected.kind, KeyKind::Pkcs8);
    assert_eq!(selected.der, key_der);

    let built = build_config(chain, Some(selected));
    assert!(built.is_ok());

    let piped = tls_config(key_pem.as_bytes(), cert_pem.as_bytes());
    assert!(piped.is_ok());
}

#[test]
fn pipeline_reports_framing_errors() {
    let bad = "-----BEGIN CERTIFICATE-----\nAQIDBA==\n";
    let r = tls_config(b"", bad.as_bytes());
    assert!(matches!(r, Err(CredentialError::PemFraming)));
}

#[test]
fn pipeline_without_a_key_is_incomplete() {
    let cert = rcgen::generate_simple_self_signed(vec!["localhost".to_string()]).unwrap();
    let cert_pem = wrap_pem("CERTIFICATE", &cert.serialize_der().unwrap());
    let r = tls_config(b"", cert_pem.as_bytes());
    assert!(matches!(r, Err(CredentialError::IncompleteCredentials)));
}

#[test]
fn pipeline_without_certificates_is_incomplete() {
    let cert = rcgen::generate_simple_self_signed(vec!["localhost".to_string()]).unwrap();
    let key_pem = wrap_pem("PRIVATE KEY", &cert.serialize_private_key_der());
    let r = tls_config(key_pem.as_bytes(), b"");
    assert!(matches!(r, Err(CredentialError::IncompleteCredentials)));
}
