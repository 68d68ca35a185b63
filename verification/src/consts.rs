use vstd::prelude::*;

verus! {

/// Default HTTP port for the server.
pub const DEFAULT_PORT: u16 = 8900;

/// Default data directory name (relative to home dir).
pub const DEFAULT_DATA_DIR_NAME: &'static str = ".agentim";

/// SQLite database filename.
pub const DB_FILENAME: &'static str = "agentim.db";

/// Session cookie name.
pub const SESSION_COOKIE_NAME: &'static str = "agentim_session";

/// Claim code prefix.
pub const CLAIM_CODE_PREFIX: &'static str = "clm_";

/// Maximum number of agents per user.
pub const MAX_AGENTS_PER_USER: usize = 50;

/// Default page size for paginated queries.
pub const DEFAULT_PAGE_SIZE: u32 = 50;

/// Maximum page size for paginated queries.
pub const MAX_PAGE_SIZE: u32 = 100;

/// Minimum length for agent ID.
pub const AGENT_ID_MIN_LEN: usize = 3;

/// Maximum length for agent ID.
pub const AGENT_ID_MAX_LEN: usize = 50;

/// Challenge nonce time-to-live (seconds).
pub const CHALLENGE_NONCE_TTL_SECS: u64 = 300;

/// JWT access token time-to-live (seconds).
pub const ACCESS_TOKEN_TTL_SECS: u64 = 600;

/// Claim code time-to-live (seconds).
pub const CLAIM_CODE_TTL_SECS: u64 = 600;

/// Number of random bytes for claim code generation.
pub const CLAIM_CODE_RANDOM_BYTES: usize = 32;

/// Number of random bytes in a challenge nonce.
pub const CHALLENGE_NONCE_BYTES: usize = 32;

/// Number of hex characters kept in a public key fingerprint.
pub const FINGERPRINT_HEX_LEN: usize = 16;

} // verus!
