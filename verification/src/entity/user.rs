//! Human users, created on first GitHub login. `github_id` is unique; name
//! and avatar are refreshed on every login.

use vstd::prelude::*;

verus! {

/// A row of the users table.
pub struct Model {
    pub id: String,
    pub github_id: i64,
    pub github_name: String,
    pub avatar_url: Option<String>,
    pub created_at: i64,
    pub updated_at: i64,
}

} // verus!
