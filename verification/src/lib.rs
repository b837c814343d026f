//! A verified core for a token-streaming relay in front of a local
//! model-serving HTTP service.
//!
//! The library holds the logic that is worth proving: the line-buffer
//! decoder that turns arbitrarily split byte chunks into newline-delimited
//! JSON records, the interpreter that maps each record to at most one text
//! token plus a completion flag, the registry of running tasks keyed by
//! opaque identifiers, the relay that tags tokens for the consumer, and the
//! decision logic of the non-streaming model-directory calls. The
//! surrounding process performs the HTTP requests and task spawning and
//! hands this library plain values.

pub mod decode;
pub mod models;
pub mod record;
pub mod relay;
pub mod registry;
