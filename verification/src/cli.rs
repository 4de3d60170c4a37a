//! Command-line values: the highest-precedence configuration layer.
//!
//! Boolean flags are one-way switches: they can turn a setting on (`--insecure`,
//! `--dry-run`) or off (`--no-delete-files`), but their absence means "not
//! specified", never "false".

use vstd::prelude::*;

verus! {

/// What the command line said.
#[derive(Debug, Clone, Default, PartialEq, Eq)]
pub struct Cli {
    /// Path to the config file.
    pub config: Option<String>,
    /// DSM hostname or IP address.
    pub host: Option<String>,
    /// DSM account name.
    pub username: Option<String>,
    /// DSM port.
    pub port: Option<u16>,
    /// Accept a self-signed or otherwise invalid TLS certificate.
    pub insecure: bool,
    /// Seconds between automatic task-list refreshes.
    pub refresh_secs: Option<u64>,
    /// Remove the DSM task only, leaving the downloaded files in place.
    pub no_delete_files: bool,
    /// Write logs here instead of the cache directory.
    pub log_file: Option<String>,
    /// Report what would be deleted without issuing any destructive call.
    pub dry_run: bool,
    /// Invalidate the cached session and exit.
    pub logout: bool,
    /// Print the raw discovery response and exit.
    pub dump_api_info: bool,
    /// Print the raw task list response and exit.
    pub dump_tasks_json: bool,
    /// Run against a captured `list` response instead of a NAS.
    pub fixture: Option<String>,
}

impl Cli {
    /// True when the invocation is one of the hidden dump modes, which print raw
    /// JSON and exit instead of entering the TUI.
    pub fn is_dump(&self) -> (yes: bool)
        ensures
            yes == (self.dump_api_info || self.dump_tasks_json),
    {
        self.dump_api_info || self.dump_tasks_json
    }
}

} // verus!
