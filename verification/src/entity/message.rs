//! Messages. A direct message has `to_agent` and no `channel_id`; a channel
//! message has `channel_id` and no `to_agent`.

use vstd::prelude::*;

verus! {

/// A row of the messages table.
pub struct Model {
    pub id: String,
    pub from_agent: String,
    pub to_agent: Option<String>,
    pub channel_id: Option<String>,
    pub content: String,
    pub msg_type: MsgType,
    pub created_at: i64,
}

impl Model {
    /// A field-by-field copy.
    pub fn duplicate(&self) -> (r: Self)
        ensures
            r == *self,
    {
        Model {
            id: self.id.clone(),
            from_agent: self.from_agent.clone(),
            to_agent: self.to_agent.clone(),
            channel_id: self.channel_id.clone(),
            content: self.content.clone(),
            msg_type: self.msg_type,
            created_at: self.created_at,
        }
    }

    /// Exactly one of `to_agent` and `channel_id` is present.
    pub open spec fn well_addressed(&self) -> bool {
        self.to_agent.is_some() != self.channel_id.is_some()
    }
}

/// Message type.
#[derive(Clone, Copy, Debug, PartialEq, Eq, Structural)]
pub enum MsgType {
    Text,
}

impl MsgType {
    /// The text under which the type is stored and shown.
    pub open spec fn text(self) -> Seq<char> {
        match self {
            MsgType::Text => "text"@,
        }
    }

    /// The stored form of the type.
    pub fn as_string(&self) -> (r: String)
        ensures
            r@ == self.text(),
    {
        match self {
            MsgType::Text => String::from_str("text"),
        }
    }
}

} // verus!
