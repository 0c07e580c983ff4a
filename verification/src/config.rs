//! The Cadder configuration file (`cadder.toml`) and the real Caddy executable it selects.
//!
//! Reading and parsing the file happens around this module; it decides what a parsed file
//! selects.

use vstd::prelude::*;

verus! {

/// The name of the configuration file, beside the executables or in a configuration
/// directory.
pub const CONFIG_FILE_NAME: &'static str = "cadder.toml";

/// The `[caddy]` table: a program name looked up on PATH, or an absolute executable path.
#[derive(Debug, Clone, PartialEq, Eq)]
pub struct CaddyConfig {
    pub real_command: Option<String>,
    pub real_path: Option<String>,
}

/// A parsed configuration file.
#[derive(Debug, Clone, PartialEq, Eq)]
pub struct CadderConfig {
    pub caddy: CaddyConfig,
}

impl Default for CaddyConfig {
    fn default() -> (r: CaddyConfig)
        ensures
            r.real_command is None,
            r.real_path is None,
    {
        CaddyConfig { real_command: None, real_path: None }
    }
}

impl Default for CadderConfig {
    fn default() -> (r: CadderConfig)
        ensures
            r.caddy.real_command is None,
            r.caddy.real_path is None,
    {
        CadderConfig { caddy: CaddyConfig { real_command: None, real_path: None } }
    }
}

/// The real Caddy executable a configuration selects.
#[derive(Debug, Clone, PartialEq, Eq)]
pub enum RealCaddySelection {
    Command(String),
    Path(String),
}

/// The view of a selection.
pub enum SelectionView {
    Command(Seq<char>),
    Path(Seq<char>),
}

/// The view of a selection.
pub open spec fn selection_view(s: RealCaddySelection) -> SelectionView {
    match s {
        RealCaddySelection::Command(c) => SelectionView::Command(c@),
        RealCaddySelection::Path(p) => SelectionView::Path(p@),
    }
}

/// What a configuration selects: an error when both a command and a path are set, else
/// the command, else the path, else nothing.
pub open spec fn selection_of(c: CadderConfig) -> Result<Option<SelectionView>, Seq<char>> {
    match (c.caddy.real_command, c.caddy.real_path) {
        (Some(_), Some(_)) => Err("caddy.real_command and caddy.real_path cannot both be configured"@),
        (Some(command), None) => Ok(Some(SelectionView::Command(command@))),
        (None, Some(path)) => Ok(Some(SelectionView::Path(path@))),
        (None, None) => Ok(None),
    }
}

impl CadderConfig {
    /// The real Caddy executable this configuration selects.
    pub fn real_caddy(&self) -> (r: Result<Option<RealCaddySelection>, String>)
        ensures
            match selection_of(*self) {
                Ok(Some(s)) => r matches Ok(Some(x)) && selection_view(x) == s,
                Ok(None) => r matches Ok(None),
                Err(m) => r matches Err(e) && e@ == m,
            },
    {
        match (&self.caddy.real_command, &self.caddy.real_path) {
            (Some(_), Some(_)) => Err("caddy.real_command and caddy.real_path cannot both be configured".to_owned()),
            (Some(command), None) => Ok(Some(RealCaddySelection::Command(command.clone()))),
            (None, Some(path)) => Ok(Some(RealCaddySelection::Path(path.clone()))),
            (None, None) => Ok(None),
        }
    }
}

} // verus!
