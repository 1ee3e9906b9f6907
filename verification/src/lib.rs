//! Control plane for a locally run proxy core: the supervisor decisions for
//! launching and stopping the external process, the pure rewrite of its
//! configuration into the recommended running profile, the rule-provider
//! download plan, and the persistence of user settings behind a debounced
//! background loop. All I/O — files, network, the process itself — is the
//! caller's work; this crate makes every decision and proves what each one
//! returns.

pub mod config;
pub mod error;
pub mod persistence;
pub mod provider;
pub mod supervisor;
pub mod yaml;
