//! The command line, as the library sees it once it has been read.

use vstd::prelude::*;

verus! {

/// Options and the command given on the command line.
#[derive(Debug)]
pub struct Cli {
    /// Prints extra information during the run.
    pub verbose: bool,
    /// Another configuration file than the one in the home directory.
    pub config: Option<String>,
    pub subcommand: Subcommands,
}

/// The commands.
#[derive(Debug)]
pub enum Subcommands {
    /// Starts work; a duration claims an earlier start.
    Begin { duration: Option<String> },
    /// Stops work; a duration claims a later end.
    End { duration: Option<String> },
    /// Records a break, such as "30m".
    Pause { duration: String },
    /// Switches to a project, by unique name or internal id.
    Switch { project: String },
    /// Takes back the last event.
    Nevermind,
    /// Registers a new project.
    New,
    /// Lists the registered projects.
    Projects,
    /// Shows the weekly reports.
    Show,
    /// Points the configuration at another sheet.
    Sheet { sheet_name: String },
}

impl Subcommands {
    /// Whether the command appends to or shortens the sheet.
    pub fn changes_sheet(&self) -> (r: bool)
        ensures
            r <==> (self is Begin || self is End || self is Pause || self is Switch || self is Nevermind),
    {
        match self {
            Subcommands::Begin { .. } | Subcommands::End { .. } | Subcommands::Pause { .. }
            | Subcommands::Switch { .. } | Subcommands::Nevermind => true,
            _ => false,
        }
    }
}

} // verus!
