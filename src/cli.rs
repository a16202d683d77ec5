//! The commands of the time tracker, as plain values.

use vstd::prelude::*;

verus! {

/// A command of the time tracker.
#[derive(Clone, Debug)]
pub enum Cmd {
    Proj(Proj),
    On(On),
    Off(Off),
    Status(Status),
    Report(Report),
}

/// Stops the current work entry.
#[derive(Clone, Debug)]
pub struct Off {}

/// Shows the current work entry.
#[derive(Clone, Debug)]
pub struct Status {}

/// Starts a work entry on a project.
#[derive(Clone, Debug)]
pub struct On {
    pub project: String,
}

/// Runs a named report with its positional arguments.
#[derive(Clone, Debug)]
pub struct Report {
    pub report: String,
    pub args: Vec<String>,
}

impl Report {
    /// The name of the file that holds this report's statement.
    pub fn file_name(&self) -> (r: String)
        ensures
            r@ == self.report@ + ".sql"@,
    {
        crate::report::report_file_name(self.report.as_str())
    }
}

/// Manages projects.
#[derive(Clone, Debug)]
pub enum Proj {
    Add(ProjAdd),
    Ls(ProjLs),
    Rm(ProjRm),
}

/// Creates a project; names are unique.
#[derive(Clone, Debug)]
pub struct ProjAdd {
    pub name: String,
}

impl ProjAdd {
    /// A project's name is its identity and is never empty.
    pub fn is_valid(&self) -> (r: bool)
        ensures
            r == (self.name@.len() > 0),
    {
        self.name.as_str().unicode_len() > 0
    }
}

/// Lists the projects.
#[derive(Clone, Debug)]
pub struct ProjLs {}

/// Removes a project. A project that entries still refer to is not removed:
/// the store's foreign key refuses it, and the history stays whole.
#[derive(Clone, Debug)]
pub struct ProjRm {
    pub name: String,
}

} // verus!
