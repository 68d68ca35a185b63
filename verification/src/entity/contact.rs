//! Contacts: an agent's address book with block control, keyed by
//! (agent_id, contact_id). A block in either direction stops direct messages.

use vstd::prelude::*;

verus! {

/// A row of the contacts table.
pub struct Model {
    pub agent_id: String,
    pub contact_id: String,
    pub alias: Option<String>,
    pub is_blocked: bool,
    pub created_at: i64,
}

impl Model {
    /// A field-by-field copy.
    pub fn duplicate(&self) -> (r: Self)
        ensures
            r == *self,
    {
        Model {
            agent_id: self.agent_id.clone(),
            contact_id: self.contact_id.clone(),
            alias: self.alias.clone(),
            is_blocked: self.is_blocked,
            created_at: self.created_at,
        }
    }
}

} // verus!
