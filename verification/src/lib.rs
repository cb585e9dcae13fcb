//! Provider of cryptographic services backed by a Trusted Platform Module.
//!
//! The library holds the rules of the provider: how hierarchy secrets are
//! decoded, how the session cipher is negotiated, how a provider is built from
//! its configuration, and how each operation resolves keys in the key info
//! store. The hardware session itself is driven by the caller, who hands its
//! answers to the functions found here.

pub mod error;
pub mod builder;
pub mod cipher;
pub mod key_attributes;
pub mod key_info;
pub mod provider;
pub mod secret;
