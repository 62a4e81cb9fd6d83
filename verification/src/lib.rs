//! An authenticating reverse proxy core: bearer-key checking, outbound
//! request construction (header filtering, target URL assembly, method
//! fallback), and mapping of the upstream outcome to the client-facing
//! response. The asynchronous serving and network I/O live outside this
//! library and hand it plain values.

pub mod auth;
pub mod cli;
pub mod config;
pub mod forward;
pub mod headers;
pub mod proxy;
pub mod respond;
pub mod state;
pub mod text;

use vstd::prelude::*;

verus! {

/// Largest inbound body, in bytes, that is forwarded upstream.
pub const MAX_BODY_BYTES: usize = 8 * 1024 * 1024;

} // verus!
