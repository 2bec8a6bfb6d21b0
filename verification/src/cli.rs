//! The navigator's command line.
use vstd::prelude::*;

verus! {

/// Herdr Recent Navigator: a recent items switcher for Herdr.
#[derive(Debug)]
pub struct Cli {
    /// Optional subcommand (track mode).
    pub command: Option<Command>,
    /// Default view category tab to open (`workspaces`, `tabs`, `agents`,
    /// `panes`, `all` or `others`).
    pub view: Option<String>,
    /// Order of the Agents tab (`recent`, `grouped` or `priority`).
    pub sort: Option<String>,
    /// Open the overlay pane (called by plugin_action keybinding).
    pub pane_open: bool,
    /// Write logs to this file instead of stderr (for development).
    pub log_file: Option<String>,
}

/// The subcommands of the navigator.
#[derive(Debug, Clone, Copy, PartialEq, Eq, Structural)]
pub enum Command {
    /// Record a pane.focused event to the MRU state file.
    Track,
    /// Focus the most recent tab (previous tab) without opening the navigator UI.
    QuickFocusPreviousTab,
    /// Focus the most recent pane (previous pane) without opening the navigator UI.
    QuickFocusPreviousPane,
    /// Focus the most recently used agent without opening the navigator UI.
    QuickFocusPreviousAgent,
}

} // verus!
