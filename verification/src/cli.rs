//! The command line: the commands and their arguments, as parsed.

use vstd::prelude::*;

verus! {

/// The parsed command line: a command, or none to open the dashboard.
#[derive(Debug)]
pub struct Cli {
    pub command: Option<Commands>,
}

#[derive(Debug)]
#[allow(inconsistent_fields)]
pub enum Commands {
    /// Manage the background daemon
    Daemon { action: DaemonAction },
    /// Manage Mihomo kernel versions
    Kernel { action: KernelAction },
    /// Manage subscription profiles
    Profile { action: ProfileAction },
    /// Manage Python overwrite plugins
    Overwrite { action: OverwriteAction },
    /// Network layer and TUN management
    Network { action: NetworkAction },
    /// Run network benchmarks
    Bench { group: Option<String> },
    /// View traffic statistics
    Stats { action: StatsAction },
    /// Query rules and DNS
    Query { action: QueryAction },
    /// Print a quick reference of common commands
    Tldr,
}

#[derive(Debug, Clone, Copy, PartialEq, Eq, Structural)]
pub enum DaemonAction {
    Start,
    Stop,
    Status,
}

#[derive(Debug)]
#[allow(inconsistent_fields)]
pub enum KernelAction {
    List,
    /// Install a version; the latest where none is given.
    Install { version: Option<String> },
    Use { version: String },
    Status,
}

#[derive(Debug)]
#[allow(inconsistent_fields)]
pub enum ProfileAction {
    Add {
        url: String,
        name: String,
        user_agent: Option<String>,
        auto_sync: Option<String>,
        timeout: Option<String>,
    },
    Del { name: String },
    List,
    /// Sync one profile, or all where none is named.
    Sync { name: Option<String> },
    Use { name: String },
    View { path: Option<String>, name: Option<String> },
    Diff { name: Option<String> },
    Merge { profiles: Vec<String>, out: Option<String> },
}

#[derive(Debug)]
#[allow(inconsistent_fields)]
pub enum OverwriteAction {
    Add {
        username: String,
        link: String,
        kind: String,
        auto_sync: Option<String>,
        timeout: Option<String>,
    },
    Init { name: String },
    List,
    Update { username: String },
    Remove { username: String },
    Use { name: String },
    Git { args: Vec<String> },
}

#[derive(Debug)]
pub enum NetworkAction {
    Tun { action: TunAction },
    Bypass { target: String },
}

#[derive(Debug, Clone, Copy, PartialEq, Eq, Structural)]
pub enum TunAction {
    Setup,
    Clear,
}

#[derive(Debug, Clone, Copy, PartialEq, Eq, Structural)]
pub enum StatsAction {
    Top,
    Summary,
    Nodes,
}

#[derive(Debug)]
pub enum QueryAction {
    Rule { target: String },
    Dns,
}

} // verus!
