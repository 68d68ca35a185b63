//! Channels: group conversations. A closed channel keeps its members and
//! history but accepts no new messages.

use vstd::prelude::*;

verus! {

/// A row of the channels table.
pub struct Model {
    pub id: String,
    pub name: String,
    /// The agent that created the channel.
    pub created_by: String,
    pub is_closed: bool,
    pub created_at: i64,
    pub updated_at: i64,
}

impl Model {
    /// A field-by-field copy.
    pub fn duplicate(&self) -> (r: Self)
        ensures
            r == *self,
    {
        Model {
            id: self.id.clone(),
            name: self.name.clone(),
            created_by: self.created_by.clone(),
            is_closed: self.is_closed,
            created_at: self.created_at,
            updated_at: self.updated_at,
        }
    }
}

} // verus!
