//! Configuration records for one synchronization session.
//!
//! A `Config` is what the control file under `.dirsync/config.json` holds:
//! whether `.gitignore` entries are excluded from transfers, and the remote
//! coordinates (host, user, root path, optional receive paths). A
//! `SessionConfig` couples that with the resolved local root.

use vstd::prelude::*;

verus! {

/// One directory the remote side may push back to the local side.
#[derive(Debug, Clone)]
pub struct ReceivePathRec {
    pub path: String,
}

/// The remote coordinates of a sync session.
#[derive(Debug, Clone)]
pub struct RemoteConfigRecord {
    /// The remote root of the sync directory.
    pub root: String,
    /// The remote host.
    pub host: String,
    /// The remote user.
    pub user: String,
    /// Directories the remote may push back; excluded from forward transfers.
    pub receive_paths: Option<Vec<ReceivePathRec>>,
}

/// The persisted configuration record.
#[derive(Debug, Clone)]
pub struct Config {
    pub ignore_gitignore: bool,
    pub remote: RemoteConfigRecord,
}

/// The resolved configuration of one running session.
#[derive(Debug, Clone)]
pub struct SessionConfig {
    /// The local root directory to sync to the remote.
    pub local_root: String,
    pub remote: RemoteConfigRecord,
    pub ignore_gitignore: bool,
}

/// Why loading a session configuration failed.
#[derive(Debug, Clone)]
pub enum ReadSessionConfigError {
    DoesNotExist,
    FailedToRead(String),
    FailedToDeserialize(String),
}

/// The value `ignore_gitignore` takes when the stored record omits it.
pub fn default_as_true() -> (b: bool)
    ensures
        b,
{
    true
}

/// `user@host`, the remote address an external transfer command is given.
pub open spec fn spec_host_string(r: RemoteConfigRecord) -> Seq<char> {
    r.user@ + "@"@ + r.host@
}

/// `host:22`, the address the remote transport connects to.
pub open spec fn spec_host_port_string(c: SessionConfig) -> Seq<char> {
    c.remote.host@ + ":22"@
}

/// `user@host:root`, the destination argument of a forward transfer.
pub open spec fn spec_destination(c: SessionConfig) -> Seq<char> {
    spec_host_string(c.remote) + ":"@ + c.remote.root@
}

/// The dedicated exclude file of the control directory.
pub open spec fn spec_exclude_path(c: SessionConfig) -> Seq<char> {
    c.local_root@ + "/.dirsync/ignore"@
}

/// The path of the persisted configuration record under a local root.
pub open spec fn spec_config_path(local_root: Seq<char>) -> Seq<char> {
    local_root + "/.dirsync/config.json"@
}

impl Config {
    /// A fresh configuration: `.gitignore` exclusion starts enabled.
    pub fn new(remote: RemoteConfigRecord) -> (c: Config)
        ensures
            c.ignore_gitignore,
            c.remote == remote,
    {
        Config { ignore_gitignore: true, remote }
    }
}

impl RemoteConfigRecord {
    /// The `user@host` form of these coordinates.
    pub fn host_string(&self) -> (s: String)
        ensures
            s@ == spec_host_string(*self),
    {
        let mut s: String = String::new();
        s.append(self.user.as_str());
        s.append("@");
        s.append(self.host.as_str());
        s
    }
}

impl SessionConfig {
    /// The `host:22` address of the remote transport.
    pub fn host_port_string(&self) -> (s: String)
        ensures
            s@ == spec_host_port_string(*self),
    {
        let mut s: String = String::new();
        s.append(self.remote.host.as_str());
        s.append(":22");
        s
    }

    /// The path of the dedicated exclude file under the local root.
    pub fn exclude_path(&self) -> (s: String)
        ensures
            s@ == spec_exclude_path(*self),
    {
        let mut s: String = String::new();
        s.append(self.local_root.as_str());
        s.append("/.dirsync/ignore");
        s
    }

    /// The `user@host:root` destination of a forward transfer.
    pub fn destination(&self) -> (s: String)
        ensures
            s@ == spec_destination(*self),
    {
        let mut s: String = String::new();
        s.append(self.remote.host_string().as_str());
        s.append(":");
        s.append(self.remote.root.as_str());
        s
    }

    /// The path of the configuration record under a local root.
    pub fn config_path(local_root: &str) -> (s: String)
        ensures
            s@ == spec_config_path(local_root@),
    {
        let mut s: String = String::new();
        s.append(local_root);
        s.append("/.dirsync/config.json");
        s
    }
}

impl SessionConfig {
    /// Resolves a session configuration from the text of the configuration
    /// record under `local_root`. Text that is not a well-formed record is
    /// rejected; reading the file is the caller's, who maps a missing file
    /// to `DoesNotExist` and a failed read to `FailedToRead`.
    pub fn from_config_text(local_root: &str, text: &str) -> (r: Result<
        SessionConfig,
        ReadSessionConfigError,
    >)
        ensures
            match crate::json::spec_parse_config(text@) {
                Some(m) => r matches Ok(c) && c.local_root@ == local_root@ && c.remote@ == m.remote
                    && c.ignore_gitignore == m.ignore_gitignore,
                None => r matches Err(e) && e matches ReadSessionConfigError::FailedToDeserialize(
                    msg,
                ) && msg@ == "unrecognized configuration record"@,
            },
    {
        match crate::json::parse_config(text) {
            Some(config) => Ok(
                SessionConfig {
                    local_root: String::from_str(local_root),
                    remote: config.remote,
                    ignore_gitignore: config.ignore_gitignore,
                },
            ),
            None => {
                let mut msg: String = String::new();
                msg.append("unrecognized configuration record");
                Err(ReadSessionConfigError::FailedToDeserialize(msg))
            },
        }
    }
}

impl ReadSessionConfigError {
    /// A diagnostic line for the operator.
    pub fn message(&self) -> (s: String)
        ensures
            s@ == match self {
                ReadSessionConfigError::DoesNotExist => "Does not exist"@,
                ReadSessionConfigError::FailedToRead(e) => "Failed to read config file: "@ + e@,
                ReadSessionConfigError::FailedToDeserialize(e) => (
                    "Failed to deserialize config file: "@ + e@
                ),
            },
    {
        match self {
            ReadSessionConfigError::DoesNotExist => {
                let mut s: String = String::new();
                s.append("Does not exist");
                s
            },
            ReadSessionConfigError::FailedToRead(e) => {
                let mut s: String = String::new();
                s.append("Failed to read config file: ");
                s.append(e.as_str());
                s
            },
            ReadSessionConfigError::FailedToDeserialize(e) => {
                let mut s: String = String::new();
                s.append("Failed to deserialize config file: ");
                s.append(e.as_str());
                s
            },
        }
    }
}

} // verus!
