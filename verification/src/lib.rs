//! Engine for incrementally building and verifying a dependency graph of
//! mathematical claims, driven by an external completion service.
//!
//! The crate holds the logic that can be checked: the claim-graph data model
//! and its traversal, the extraction grammar for agent responses, the
//! streaming-reassembly state machine, the pessimistic-verification decision
//! rule, and the session state machines. Network, filesystem and process
//! plumbing live outside the library and drive these functions with the
//! values they collect.

use vstd::prelude::*;

pub mod agents;
pub mod consensus;
pub mod extract;
pub mod fmt;
pub mod memory;
pub mod session;
pub mod stream;
pub mod text;

verus! {

/// Upper bound on how often a single claim node is re-checked.
pub const MAX_REVIEWS_PER_NODE: u8 = 24;

/// Transport-level retries for one completion call.
pub const MAX_REQWEST_RETRIES: u8 = 7;

/// Decode-level retries within one open stream.
pub const MAX_CHUNK_DECODE_RETRIES: u8 = 16;

/// A transport attempt is re-issued while the number of attempts already
/// made has not passed the retry cap.
pub fn transport_should_retry(attempts_made: u8) -> (retry: bool)
    ensures
        retry == (attempts_made <= MAX_REQWEST_RETRIES),
{
    attempts_made <= MAX_REQWEST_RETRIES
}

} // verus!
