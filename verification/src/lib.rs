//! A versioned store for release records on top of a cluster's labelled
//! objects.
//!
//! The crate holds the storage engine ([`storage::Storage`]), the contract
//! every backend meets ([`storage::driver::Driver`]), the two backend variants
//! ([`storage::driver::configmaps::ConfigMaps`] and
//! [`storage::driver::secrets::Secrets`]) and the payload codec. It performs
//! no I/O of its own: a backend's transport sends the objects built here and
//! hands back what it read.

pub mod entries;
pub mod release;
pub mod storage;
pub mod text;
