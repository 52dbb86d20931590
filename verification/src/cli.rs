//! The commands of the program, as the command line gives them.
use vstd::prelude::*;

verus! {

/// The command line: one command.
#[derive(Debug)]
pub struct Cli {
    pub command: Command,
}

/// The commands of the program.
#[derive(Debug)]
pub enum Command {
    /// Create a new vault.
    Init { path: std::path::PathBuf },
    /// Open a vault and show how many records it holds.
    Open { path: std::path::PathBuf },
    /// Add a record.
    Add { kind: AddKind },
    /// List the records (metadata only), optionally of one type or with one tag.
    List { type_filter: Option<String>, tag_filter: Option<String> },
    /// Show a record by id or title, one field of it, or copy a field to the clipboard.
    Get { id_or_name: String, field: Option<String>, clip: bool },
    /// Change the master password.
    Changepass,
    /// Check a file, structurally or with the password.
    Verify { path: std::path::PathBuf, with_password: bool },
}

/// The kinds of record that `add` creates.
#[derive(Debug, Clone, Copy, PartialEq, Eq, Structural)]
pub enum AddKind {
    Login,
}

} // verus!
