//! The configuration settings definitions.

use vstd::prelude::*;

verus! {

/// Settings for github login. To configure a github OAuth app must have been
/// provisioned.
#[derive(Debug)]
pub struct GithubSettings {
    /// The OAuth app "client ID"
    pub client_id: String,
    /// The OAuth app "client secret"
    pub client_secret: String,
    /// A random string used to authenticate requests from github. Can be any
    /// random secret value and can change.
    pub state: String,
    /// The github organization we require users to be a member of.
    pub required_org: String,
}

/// Setting for daemonization
#[derive(Debug)]
pub struct DaemonizeSettings {
    /// Where to store pid file when daemonizing
    pub pid_file: String,
}

/// The path of the database file where none is configured.
pub fn default_database_file() -> (path: String)
    ensures
        path@ == "shaft.db"@,
{
    "shaft.db".to_owned()
}

/// The directory of the web resources where none is configured.
pub fn default_resource_dir() -> (dir: String)
    ensures
        dir@ == "res"@,
{
    "res".to_owned()
}

/// The web root prefix where none is configured.
pub fn default_web_root() -> (root: String)
    ensures
        root@ == "/"@,
{
    "/".to_owned()
}

/// The bind address of the HTTP server where none is configured.
pub fn default_bind() -> (address: String)
    ensures
        address@ == "127.0.0.1:8975"@,
{
    "127.0.0.1:8975".to_owned()
}

} // verus!
