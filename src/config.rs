use vstd::prelude::*;

use directories::ProjectDirs;
use std::path::PathBuf;

verus! {

#[verifier::external_type_specification]
#[verifier::external_body]
pub struct ExPathBuf(PathBuf);

#[verifier::external_type_specification]
#[verifier::external_body]
pub struct ExProjectDirs(ProjectDirs);

/// Name of the directories of this program under the user's configuration and cache roots.
pub const APPLICATION_NAME: &'static str = "squads-cli";

/// Name of the configuration file.
pub const CONFIG_FILE: &'static str = "config.toml";

/// Why the program's directories are unknown.
#[derive(Debug, PartialEq, Eq)]
pub enum ConfigError {
    /// No home directory could be found for the user.
    NoProjectDirs,
}

/// Application configuration.
#[derive(Debug, Clone)]
pub struct Config {
    pub auth: AuthConfig,
    pub output: OutputConfig,
    pub api: ApiConfig,
}

/// Sign-in settings.
#[derive(Debug, Clone)]
pub struct AuthConfig {
    /// Directory tenant ("organizations" for any work or school account).
    pub tenant: String,
}

/// Display settings.
#[derive(Debug, Clone)]
pub struct OutputConfig {
    /// Default output format.
    pub default_format: String,
    /// Whether output is coloured.
    pub color: bool,
}

/// Service settings.
#[derive(Debug, Clone)]
pub struct ApiConfig {
    /// Service region (emea, amer, apac).
    pub region: String,
    /// Request timeout in seconds.
    pub timeout: u64,
}

/// The tenant used unless configured otherwise.
pub fn default_tenant() -> (r: String)
    ensures
        r@ == "organizations"@,
{
    "organizations".to_string()
}

/// The output format used unless configured otherwise.
pub fn default_format() -> (r: String)
    ensures
        r@ == "table"@,
{
    "table".to_string()
}

/// Output is coloured unless configured otherwise.
pub fn default_true() -> (r: bool)
    ensures
        r,
{
    true
}

/// The region used unless configured otherwise.
pub fn default_region() -> (r: String)
    ensures
        r@ == "emea"@,
{
    "emea".to_string()
}

/// The request timeout used unless configured otherwise.
pub fn default_timeout() -> (r: u64)
    ensures
        r == 30,
{
    30
}

impl Default for AuthConfig {
    fn default() -> (r: Self)
        ensures
            r.tenant@ == "organizations"@,
    {
        AuthConfig { tenant: default_tenant() }
    }
}

impl Default for OutputConfig {
    fn default() -> (r: Self)
        ensures
            r.default_format@ == "table"@,
            r.color,
    {
        OutputConfig { default_format: default_format(), color: default_true() }
    }
}

impl Default for ApiConfig {
    fn default() -> (r: Self)
        ensures
            r.region@ == "emea"@,
            r.timeout == 30,
    {
        ApiConfig { region: default_region(), timeout: default_timeout() }
    }
}

impl Default for Config {
    fn default() -> (r: Self)
        ensures
            r.auth.tenant@ == "organizations"@,
            r.output.default_format@ == "table"@,
            r.output.color,
            r.api.region@ == "emea"@,
            r.api.timeout == 30,
    {
        Config {
            auth: AuthConfig::default(),
            output: OutputConfig::default(),
            api: ApiConfig::default(),
        }
    }
}

/// Relies on `directories::ProjectDirs::from` to place the program's directories under the
/// user's home; the home may be unknown, so nothing is promised of the result.
#[verifier::external_body]
fn project_dirs_from(qualifier: &str, organization: &str, application: &str) -> Option<ProjectDirs> {
    ProjectDirs::from(qualifier, organization, application)
}

/// Relies on `directories::ProjectDirs::config_dir` for the program's configuration directory.
#[verifier::external_body]
fn config_dir_of(dirs: &ProjectDirs) -> PathBuf {
    dirs.config_dir().to_path_buf()
}

/// Relies on `directories::ProjectDirs::cache_dir` for the program's cache directory.
#[verifier::external_body]
fn cache_dir_of(dirs: &ProjectDirs) -> PathBuf {
    dirs.cache_dir().to_path_buf()
}

/// Relies on `std::path::Path::join` to name a file inside a directory.
#[verifier::external_body]
fn join_path(base: &PathBuf, name: &str) -> PathBuf {
    base.join(name)
}

impl Config {
    /// The program's directories under the user's home.
    pub fn project_dirs() -> Option<ProjectDirs> {
        project_dirs_from("", APPLICATION_NAME, APPLICATION_NAME)
    }

    /// The configuration file's path, when the user's home is known.
    pub fn config_path() -> Result<PathBuf, ConfigError> {
        Self::config_path_in(Self::project_dirs())
    }

    /// The configuration file's path inside the program's directories, if they are known.
    pub fn config_path_in(dirs: Option<ProjectDirs>) -> (r: Result<PathBuf, ConfigError>)
        ensures
            r is Ok <==> dirs is Some,
            r is Err ==> r == Err::<PathBuf, ConfigError>(ConfigError::NoProjectDirs),
    {
        match dirs {
            Some(dirs) => Ok(join_path(&config_dir_of(&dirs), CONFIG_FILE)),
            None => Err(ConfigError::NoProjectDirs),
        }
    }

    /// The cache directory, when the user's home is known.
    pub fn cache_dir() -> Result<PathBuf, ConfigError> {
        Self::cache_dir_in(Self::project_dirs())
    }

    /// The cache directory among the program's directories, if they are known.
    pub fn cache_dir_in(dirs: Option<ProjectDirs>) -> (r: Result<PathBuf, ConfigError>)
        ensures
            r is Ok <==> dirs is Some,
            r is Err ==> r == Err::<PathBuf, ConfigError>(ConfigError::NoProjectDirs),
    {
        match dirs {
            Some(dirs) => Ok(cache_dir_of(&dirs)),
            None => Err(ConfigError::NoProjectDirs),
        }
    }
}

} // verus!
