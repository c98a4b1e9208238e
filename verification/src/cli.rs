//! What the command line asks for.

use vstd::prelude::*;

use crate::config::Config;
use crate::text::text_in;

verus! {

/// The command line.
#[derive(Debug)]
pub struct Cli {
    /// What to do.
    pub command: Commands,
    /// Path to config file (default: /etc/arbiter/config.toml or
    /// $XDG_CONFIG_HOME/arbiter/config.toml).
    pub config: Option<String>,
    /// Override log level (trace / debug / info / warn / error).
    pub log_level: Option<String>,
}

/// The commands.
#[derive(Debug)]
pub enum Commands {
    /// Start the daemon (listens for exec events and applies rules).
    Daemon {
        /// Log actions only; do not write to /proc or cgroups.
        dry_run: bool,
    },
    /// Manage active profile.
    Profile { action: ProfileAction },
    /// Show why a process would (or wouldn't) be matched.
    Explain {
        /// PID number or process name (`comm`).
        target: String,
    },
    /// Print current daemon status (scheduler, profile, rule count).
    Status,
    /// Validate rule and type files; exit non-zero on error.
    Check {
        /// Directory to check (default: dirs from config).
        path: Option<String>,
    },
}

/// What to do with profiles.
#[derive(Debug)]
pub enum ProfileAction {
    /// List available profiles.
    List,
    /// Print the currently configured profile.
    Get,
    /// Update the active profile (requires daemon restart; SIGHUP only reloads rules).
    Select {
        /// Profile name: default | gaming | lowpower | server
        name: String,
    },
}

impl Cli {
    /// The log level, where the environment does not set one: the flag overrides the settings.
    pub fn starting_log_level(&self, config: &Config) -> (r: String)
        ensures
            r@ == match text_in(self.log_level) {
                Some(level) => level,
                None => config@.log_level,
            },
    {
        match &self.log_level {
            Some(level) => level.clone(),
            None => config.log_level.clone(),
        }
    }
}

} // verus!
