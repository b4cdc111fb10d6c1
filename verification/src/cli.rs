//! The command-line surface, as plain records: what each subcommand carries
//! and how it maps onto the session manager's own option records. Parsing
//! the actual command line happens at the boundary, which hands these
//! records in.

use crate::session_manager::{CreateSessionOptions, Options, SwitchTarget};
use vstd::prelude::*;

verus! {

/// The whole invocation: optional directory overrides and one subcommand.
#[derive(Debug)]
pub struct Cli {
    pub config_dir: Option<String>,
    pub cache_dir: Option<String>,
    pub command: Commands,
}

/// The subcommands.
#[derive(Debug)]
pub enum Commands {
    /// Find repositories under the configured search roots.
    Search,
    /// List configured and/or running sessions.
    List { opts: ListSessionsOptions },
    /// Create a layout and open it in the editor.
    Create { opts: CreateOptions },
    /// Create layouts in bulk from supplied paths.
    CreateAll,
    /// Edit an existing layout.
    Edit { name: String },
    /// Switch to a running session, or load the layout.
    Switch { target: CliSwitchTarget },
    /// Remove a layout.
    Remove { name: String },
}

/// The parameters of layout creation.
#[derive(Debug)]
pub struct CreateOptions {
    pub path: String,
    pub name: Option<String>,
    pub disable_editor: bool,
    pub machine_readable: bool,
}

impl CreateOptions {
    pub fn to_create_session_options(self) -> (r: CreateSessionOptions)
        ensures
            r.path == self.path,
            r.name == self.name,
            r.disable_editor == self.disable_editor,
            r.machine_readable == self.machine_readable,
    {
        CreateSessionOptions {
            path: self.path,
            name: self.name,
            disable_editor: self.disable_editor,
            machine_readable: self.machine_readable,
        }
    }
}

/// What a switch was asked for on the command line: the last session, or a
/// named one. The two are exclusive, and a name is present exactly when the
/// last-session flag is not set; the boundary's argument parser enforces
/// that before this record is built.
#[derive(Debug)]
pub struct CliSwitchTarget {
    pub last_session: bool,
    pub name: Option<String>,
}

impl CliSwitchTarget {
    pub fn to_switch_target(self) -> (r: SwitchTarget)
        requires
            self.last_session || self.name is Some,
        ensures
            self.last_session ==> r is LastSession,
            !self.last_session ==> (r matches SwitchTarget::Session(n) && Some(n)
                == self.name),
    {
        if self.last_session {
            SwitchTarget::LastSession
        } else {
            match self.name {
                Some(n) => SwitchTarget::Session(n),
                None => SwitchTarget::LastSession,
            }
        }
    }
}

/// The parameters of the listing subcommand.
#[derive(Debug)]
pub struct ListSessionsOptions {
    pub tmux_format: bool,
    pub conflicting: ListSessionsConflicting,
}

/// The mutually exclusive filters of the listing.
#[derive(Debug)]
pub struct ListSessionsConflicting {
    pub include_active: bool,
    pub exclude_running: bool,
    pub only_running: bool,
}

impl ListSessionsOptions {
    pub fn to_options(self) -> (r: Options)
        ensures
            r.tmux_format == self.tmux_format,
            r.include_active == self.conflicting.include_active,
            r.exclude_running == self.conflicting.exclude_running,
            r.only_running == self.conflicting.only_running,
    {
        Options {
            tmux_format: self.tmux_format,
            include_active: self.conflicting.include_active,
            exclude_running: self.conflicting.exclude_running,
            only_running: self.conflicting.only_running,
        }
    }
}

} // verus!
