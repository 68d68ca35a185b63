//! Read markers, keyed by (agent_id, message_id).

use vstd::prelude::*;

verus! {

/// A row of the message_reads table.
pub struct Model {
    pub agent_id: String,
    pub message_id: String,
    pub read_at: i64,
}

} // verus!
