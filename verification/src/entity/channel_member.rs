//! Channel membership, keyed by (channel_id, agent_id). Admins may invite and
//! remove members and close the channel; the creator starts as Admin.

use vstd::prelude::*;

verus! {

/// A row of the channel_members table.
pub struct Model {
    pub channel_id: String,
    pub agent_id: String,
    pub role: MemberRole,
    pub joined_at: i64,
}

impl Model {
    /// A field-by-field copy.
    pub fn duplicate(&self) -> (r: Self)
        ensures
            r == *self,
    {
        Model {
            channel_id: self.channel_id.clone(),
            agent_id: self.agent_id.clone(),
            role: self.role,
            joined_at: self.joined_at,
        }
    }
}

/// Role of a channel member.
#[derive(Clone, Copy, Debug, PartialEq, Eq, Structural)]
pub enum MemberRole {
    Admin,
    Member,
}

impl MemberRole {
    /// The text under which the role is stored and shown.
    pub open spec fn text(self) -> Seq<char> {
        match self {
            MemberRole::Admin => "admin"@,
            MemberRole::Member => "member"@,
        }
    }

    /// The stored form of the role.
    pub fn as_string(&self) -> (r: String)
        ensures
            r@ == self.text(),
    {
        match self {
            MemberRole::Admin => String::from_str("admin"),
            MemberRole::Member => String::from_str("member"),
        }
    }
}

} // verus!
