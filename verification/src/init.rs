//! Initializing the local control directory.
//!
//! `init` lays out `.dirsync/` under the current directory: the two hook
//! action directories, an empty ignore file, and the configuration record
//! with its defaults. The filesystem writes are the caller's; the paths and
//! the persisted text are fixed here.

use vstd::prelude::*;

use crate::config::Config;
use crate::config::RemoteConfigRecord;
use crate::json::ConfigModel;
use crate::json::encode_config;
use crate::json::spec_encode_config;

verus! {

/// Why initializing the control directory failed.
#[derive(Debug, Clone)]
pub enum InitError {
    Io(String),
    Serde(String),
}

impl InitError {
    /// A diagnostic line for the operator.
    pub fn message(&self) -> (s: String)
        ensures
            s@ == match self {
                InitError::Io(e) => "Config file error: "@ + e@,
                InitError::Serde(e) => "JSON error: "@ + e@,
            },
    {
        match self {
            InitError::Io(e) => {
                let mut s: String = String::new();
                s.append("Config file error: ");
                s.append(e.as_str());
                s
            },
            InitError::Serde(e) => {
                let mut s: String = String::new();
                s.append("JSON error: ");
                s.append(e.as_str());
                s
            },
        }
    }
}

/// The action directories `init` creates, one per recognized hook.
pub fn action_dirs() -> (r: Vec<&'static str>)
    ensures
        r@.len() == 2,
        r@[0]@ == "./.dirsync/actions/onSyncDidFinish"@,
        r@[1]@ == "./.dirsync/actions/onSessionDidStart"@,
{
    let mut r: Vec<&'static str> = Vec::new();
    r.push("./.dirsync/actions/onSyncDidFinish");
    r.push("./.dirsync/actions/onSessionDidStart");
    r
}

/// Where `init` creates the empty ignore file.
pub fn ignore_file_path() -> (r: &'static str)
    ensures
        r@ == "./.dirsync/ignore"@,
{
    "./.dirsync/ignore"
}

/// Where `init` writes the configuration record.
pub fn config_file_path() -> (r: &'static str)
    ensures
        r@ == "./.dirsync/config.json"@,
{
    "./.dirsync/config.json"
}

/// The text `init` persists: a fresh configuration over the given remote
/// coordinates, with `.gitignore` exclusion enabled.
pub fn init_config_text(remote: RemoteConfigRecord) -> (s: String)
    ensures
        s@ == spec_encode_config(ConfigModel { ignore_gitignore: true, remote: remote@ }),
{
    let config = Config::new(remote);
    encode_config(&config)
}

} // verus!
