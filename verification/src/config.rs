//! Server configuration and where its files live.

use vstd::prelude::*;
use vstd::string::*;
use crate::consts;
use crate::text;

verus! {

/// AgentIM Server configuration.
pub struct AppConfig {
    /// Data directory for SQLite and runtime files.
    pub data_dir: Option<String>,
    /// HTTP port to listen on.
    pub port: u16,
    /// GitHub OAuth client ID.
    pub github_client_id: String,
    /// GitHub OAuth client secret.
    pub github_client_secret: String,
}

/// Reads the user's home directory with `dirs::home_dir`, as text (a home
/// path that is not UTF-8 counts as unknown). What it answers depends on the
/// environment, so nothing is claimed.
#[verifier::external_body]
fn home_dir() -> Option<String> {
    match dirs::home_dir() {
        Some(p) => p.into_os_string().into_string().ok(),
        None => None,
    }
}

/// The path of `name` inside `base`, as `PathBuf::join` builds it for a
/// relative name: a separator goes between them unless `base` is empty or
/// ends with one.
pub open spec fn join_path(base: Seq<char>, name: Seq<char>) -> Seq<char> {
    if base.len() == 0 || base.last() == '/' {
        base + name
    } else {
        base + "/"@ + name
    }
}

/// The path of `name` inside `base`.
pub fn join(base: &str, name: &str) -> (r: String)
    ensures
        r@ == join_path(base@, name@),
{
    let n = base.unicode_len();
    if n == 0 || base.get_char(n - 1) == '/' {
        text::concat2(base, name)
    } else {
        proof {
            reveal_strlit("/");
        }
        text::concat3(base, "/", name)
    }
}

impl AppConfig {
    /// The data directory, given the home directory: the configured one,
    /// else `.agentim` in the home directory. With neither there is none to
    /// give, so that case is left out.
    pub fn data_dir_with_home(&self, home: Option<&str>) -> (r: String)
        requires
            self.data_dir is Some || home is Some,
        ensures
            r@ == match self.data_dir {
                Some(d) => d@,
                None => join_path(home->0@, consts::DEFAULT_DATA_DIR_NAME@),
            },
    {
        match &self.data_dir {
            Some(d) => d.clone(),
            None => join(home.unwrap(), consts::DEFAULT_DATA_DIR_NAME),
        }
    }

    /// The data directory: the configured one, else `.agentim` in the home
    /// directory; none only when there is no configured one and the home
    /// directory is unknown (the caller cannot go on then).
    pub fn resolved_data_dir(&self) -> (r: Option<String>)
        ensures
            self.data_dir matches Some(d) ==> r matches Some(p) && p@ == d@,
            self.data_dir is None ==> (r matches Some(p) ==> exists|h: Seq<char>|
                p@ == #[trigger] join_path(h, consts::DEFAULT_DATA_DIR_NAME@)),
            r is None ==> self.data_dir is None,
    {
        if self.data_dir.is_some() {
            return Some(self.data_dir_with_home(None));
        }
        match home_dir() {
            Some(h) => Some(self.data_dir_with_home(Some(h.as_str()))),
            None => None,
        }
    }

    /// Full path to the SQLite database file.
    pub fn db_path(&self) -> (r: Option<String>)
        ensures
            self.data_dir matches Some(d) ==> r matches Some(p) && p@ == join_path(
                d@,
                consts::DB_FILENAME@,
            ),
            self.data_dir is None ==> (r matches Some(p) ==> exists|h: Seq<char>|
                p@ == #[trigger] join_path(
                    join_path(h, consts::DEFAULT_DATA_DIR_NAME@),
                    consts::DB_FILENAME@,
                )),
            r is None ==> self.data_dir is None,
    {
        match self.resolved_data_dir() {
            Some(dir) => {
                let p = join(dir.as_str(), consts::DB_FILENAME);
                proof {
                    if self.data_dir is None {
                        let h = choose|h: Seq<char>| dir@ == #[trigger] join_path(
                            h,
                            consts::DEFAULT_DATA_DIR_NAME@,
                        );
                        assert(p@ == join_path(join_path(h, consts::DEFAULT_DATA_DIR_NAME@), consts::DB_FILENAME@));
                    }
                }
                Some(p)
            },
            None => None,
        }
    }
}

} // verus!
