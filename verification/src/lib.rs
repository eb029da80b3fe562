//! Connection-protocol layer for a keyword-private retrieval service.
//!
//! The crate verifies the framing codec (8-byte little-endian length prefix
//! followed by the payload), the server-side request dispatcher, the setup
//! parameter bundle and its wire encoding, and the client session state
//! machine. The retrieval engine itself is an outside collaborator reached
//! through a small set of trusted wrappers.

pub mod bundle;
pub mod codec;
pub mod dispatch;
pub mod engine;
pub mod engine_format;
pub mod errors;
pub mod server_state;
pub mod session;
