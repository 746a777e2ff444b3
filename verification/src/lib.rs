//! Resolution of a typed service configuration from environment variables,
//! with first-class support for secret fields.
//!
//! The crate is organised leaf-first:
//! - [`crypto`]: an asymmetric sealed-box style encrypt/decrypt primitive with
//!   context binding, serialised as prefixed, base64-encoded key tokens;
//! - [`env`]: an owned view of the process environment that can be purged;
//! - [`config`]: the generic value resolver (raw value over default), the key
//!   cache and the encrypted-field fetch step;
//! - [`schema`]: a declarative per-field schema and the assembly loop that
//!   resolves a whole configuration in one pass.

pub mod b64;
pub mod config;
pub mod crypto;
pub mod env;
pub mod error;
pub mod schema;
pub mod sealedbox;
pub mod secret;
pub mod strutil;
