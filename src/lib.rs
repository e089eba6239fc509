//! Synchronisation and reconciliation engine of a local mirror of a crate
//! registry and of a toolchain distribution channel.
//!
//! The modules hold the decisions of the engine: which identification is sent,
//! which on-disk layout is in use, which releases are kept, which index records
//! are missing locally, how one download moves from a temporary file to its
//! destination, and how `sync`, `verify` and `serve` proceed.

pub mod error;
pub mod config;
pub mod identity;
pub mod layout;
pub mod retention;
pub mod reconcile;
pub mod fetch;
pub mod plan;
pub mod toolchain;

pub use error::MirrorError;
pub use config::{Config, ConfigCrates, ConfigMirror, ConfigRustup};
pub use identity::{
    default_user_agent, identification, user_agent, Identification, PLACEHOLDER_CONTACT,
    PRODUCT_NAME, PRODUCT_VERSION,
};
