//! Credential loading for a TLS-terminating connection acceptor.
//!
//! The crate turns PEM-encoded byte sources into the certificate chain and
//! private key a TLS server handshake needs, and builds the server-side
//! handshake configuration from them. PEM base64 decoding and the TLS
//! protocol engine are consumed as outside capabilities; what is proved here
//! is the classification and selection logic: which blocks form the chain,
//! which block becomes the key, and when each failure is reported.

use vstd::prelude::*;

pub mod config;
pub mod load;
pub mod pem;

pub use config::build_config;
pub use config::tls_config;

verus! {

/// Why credential loading or configuration building failed.
#[derive(Clone, Copy, PartialEq, Eq, Structural, Debug)]
pub enum CredentialError {
    /// Malformed PEM framing: an unterminated section or invalid base64.
    PemFraming,
    /// The sources were syntactically valid but yield an empty certificate
    /// chain or no usable private key.
    IncompleteCredentials,
    /// The TLS engine rejected the private key handed to it.
    KeyCertMismatch,
}

} // verus!
