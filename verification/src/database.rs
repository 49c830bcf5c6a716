//! Where the database is found.

use vstd::prelude::*;
use vstd::string::StringExecFns;

verus! {

/// What a connection to the database is made with.
#[derive(Debug, Clone, PartialEq, Eq)]
pub struct PgConfig {
    pub database: String,
    pub hostname: String,
    pub username: String,
    pub password: String,
}

impl PgConfig {
    /// The address that a connection is opened at.
    pub open spec fn address(self) -> Seq<char> {
        "postgres://"@ + self.username@ + ":"@ + self.password@ + "@"@ + self.hostname@ + "/"@
            + self.database@
    }

    /// The address that a connection is opened at: the user and the
    /// password, the host, and the name of the database.
    pub fn url(&self) -> (url: String)
        ensures
            url@ == self.address(),
    {
        let mut url = String::from_str("postgres://");
        url.append(self.username.as_str());
        url.append(":");
        url.append(self.password.as_str());
        url.append("@");
        url.append(self.hostname.as_str());
        url.append("/");
        url.append(self.database.as_str());
        assert(url@ =~= self.address());
        url
    }
}

} // verus!
