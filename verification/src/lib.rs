//! Secure-bootstrap configuration for a lair keystore server.
//!
//! This crate derives, encrypts, and packages the cryptographic material a
//! keystore server needs to start: a database context key, a server identity
//! keypair seed, and the passphrase-derived sub-keys that protect both at
//! rest. It also builds and parses the connection locator that embeds the
//! server's public identity key, and renders / parses the human-editable
//! configuration document.

pub mod config;
pub mod conn_url;
pub mod dec;
pub mod doc;
pub mod err;
pub mod bytestr;
pub mod bin_types;
pub mod hex;
pub mod sodium;

pub use err::LairError;
pub use err::LairResult;
pub use bin_types::BinDataSized;
pub use bin_types::SecretDataSized;
pub use config::LairServerConfigInner;
pub use config::LairServerSignatureFallback;
pub use config::PwHashLimits;
pub use conn_url::ConnectionScheme;
pub use conn_url::ConnectionUrl;
pub use sodium::SecureSecretCell;
