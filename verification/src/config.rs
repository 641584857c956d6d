//! Building the server-side handshake configuration.
//!
//! The TLS engine is an outside capability: one trusted call builds its
//! configuration from a chain and a key. What is proved here is the
//! completeness check in front of it — an empty chain or an absent key never
//! reaches the engine — and the mapping of each outcome to this crate's
//! error taxonomy.

use crate::load;
use crate::pem::cert_ders;
use crate::pem::first_key;
use crate::pem::pem_parse;
use crate::pem::KeyMaterial;
use crate::CredentialError;
use tokio_rustls::rustls::ServerConfig;
use vstd::prelude::*;

verus! {

#[verifier::external_type_specification]
#[verifier::external_body]
pub struct ExServerConfig(ServerConfig);

#[verifier::external_type_specification]
#[verifier::external_body]
pub struct ExTlsError(tokio_rustls::rustls::Error);

/// Whether the TLS engine accepts a DER payload as a usable private key
/// (RSA, ECDSA or Ed25519): a function of the bytes alone.
pub uninterp spec fn key_supported(der: Seq<u8>) -> bool;

/// Relies on rustls's server ConfigBuilder (with_safe_defaults,
/// with_no_client_auth, with_single_cert): the built configuration presents
/// `chain` with `key` and requires no client certificate. Per
/// with_single_cert and AlwaysResolvesChain::new, the build fails exactly
/// when the key's DER cannot be parsed as a supported signing key, whatever
/// the chain holds.
#[verifier::external_body]
fn build_engine_config(chain: Vec<Vec<u8>>, key: KeyMaterial) -> (r: Result<
    ServerConfig,
    tokio_rustls::rustls::Error,
>)
    ensures
        r is Ok <==> key_supported(key.der@),
{
    ServerConfig::builder().with_safe_defaults().with_no_client_auth().with_single_cert(
        chain.into_iter().map(tokio_rustls::rustls::Certificate).collect(),
        tokio_rustls::rustls::PrivateKey(key.der),
    )
}

/// Builds the handshake configuration from a certificate chain and the
/// selected key, if one was found. An empty chain or an absent key is
/// reported as incomplete credentials before the TLS engine is consulted;
/// a key the engine rejects is reported as a pairing failure.
pub fn build_config(chain: Vec<Vec<u8>>, key: Option<KeyMaterial>) -> (r: Result<
    ServerConfig,
    CredentialError,
>)
    ensures
        chain@.len() == 0 || key is None ==> r == Err::<ServerConfig, CredentialError>(
            CredentialError::IncompleteCredentials,
        ),
        chain@.len() > 0 && key is Some ==> {
            &&& r is Ok <==> key_supported(key->Some_0.der@)
            &&& r is Err ==> r == Err::<ServerConfig, CredentialError>(
                CredentialError::KeyCertMismatch,
            )
        },
{
    if chain.len() == 0 {
        return Err(CredentialError::IncompleteCredentials);
    }
    let k = match key {
        Some(k) => k,
        None => {
            return Err(CredentialError::IncompleteCredentials);
        },
    };
    match build_engine_config(chain, k) {
        Ok(c) => Ok(c),
        Err(_) => Err(CredentialError::KeyCertMismatch),
    }
}

/// Loads the chain from `certs_pem` and the key from `key_pem`, then builds
/// the handshake configuration. Malformed framing in either source is a
/// framing error; a source pair without a certificate or without a key is
/// incomplete; a key the TLS engine rejects is a pairing failure.
pub fn tls_config(key_pem: &[u8], certs_pem: &[u8]) -> (r: Result<ServerConfig, CredentialError>)
    ensures
        match (pem_parse(key_pem@), pem_parse(certs_pem@)) {
            (Some(kb), Some(cb)) => {
                if cert_ders(cb).len() == 0 || first_key(kb) is None {
                    r == Err::<ServerConfig, CredentialError>(
                        CredentialError::IncompleteCredentials,
                    )
                } else {
                    &&& r is Ok <==> key_supported(first_key(kb)->Some_0.der)
                    &&& r is Err ==> r == Err::<ServerConfig, CredentialError>(
                        CredentialError::KeyCertMismatch,
                    )
                }
            },
            _ => r == Err::<ServerConfig, CredentialError>(CredentialError::PemFraming),
        },
{
    let chain = match load::certs(certs_pem) {
        Ok(chain) => chain,
        Err(e) => {
            return Err(e);
        },
    };
    let selected = match load::key(key_pem) {
        Ok(selected) => selected,
        Err(e) => {
            return Err(e);
        },
    };
    build_config(chain, selected)
}

} // verus!
