//! The command-line records, as the engines consume them.
//!
//! Argument parsing itself happens outside the library; these are the plain
//! values it hands over.

use vstd::prelude::*;

use crate::naming_conventions::NamingConvention;

verus! {

/// Arguments of the default command, i.e. when no subcommand is used.
#[derive(Clone, Debug, PartialEq, Eq)]
pub struct DefaultArgs {
    /// A list of files (of any kind) for which to format the name.
    pub files: Vec<String>,
    /// The naming convention to use; the configuration value applies when
    /// none is given.
    pub naming_convention: Option<NamingConvention>,
    /// Recursively format filenames within directories.
    pub recursive: bool,
    /// Keep dots as ordinary characters instead of separators.
    pub keep_dots: bool,
    /// Keep characters that are neither alphanumeric nor separators.
    pub keep_special_chars: bool,
    /// Keep non-ASCII characters instead of transliterating them.
    pub keep_unicode: bool,
}

/// Add a pattern to the exclude file.
#[derive(Clone, Debug, PartialEq, Eq)]
pub struct AddCli {
    /// The pattern to add.
    pub pattern: String,
}

/// Delete a pattern from the exclude file.
#[derive(Clone, Debug, PartialEq, Eq)]
pub struct DelCli {
    /// The pattern to delete.
    pub pattern: String,
}

/// Open the exclude file for edition.
#[derive(Clone, Debug, PartialEq, Eq)]
pub struct EditCli {
    /// The editor with which to open the exclude file; the configuration
    /// value applies when none is given.
    pub editor: Option<String>,
}

/// Revert filename changes recorded in a history file.
#[derive(Clone, Debug, PartialEq, Eq)]
pub struct RevertCli {
    /// The file specifying the filename changes to revert.
    pub history_file: String,
}

/// The exclude subcommands.
#[derive(Clone, Debug, PartialEq, Eq)]
pub enum ExcludeCommand {
    /// Add a pattern to the exclude file.
    Add {
        /// The pattern to add.
        pattern: String,
    },
    /// Delete a pattern from the exclude file.
    Del {
        /// The pattern to delete.
        pattern: String,
    },
    /// Open the exclude file for edition.
    Edit {
        /// The editor to use, if chosen on the command line.
        editor: Option<String>,
    },
}

/// Exclude filenames matching the given patterns when formatting.
#[derive(Clone, Debug, PartialEq, Eq)]
pub struct ExcludeCli {
    /// The chosen exclude subcommand.
    pub command: ExcludeCommand,
}

/// The subcommands.
#[derive(Clone, Debug, PartialEq, Eq)]
pub enum Command {
    /// Manage the exclude-pattern file.
    Exclude {
        /// The chosen exclude subcommand.
        command: ExcludeCommand,
    },
    /// Revert the changes a history file records.
    Revert {
        /// The history file to replay backwards.
        history_file: String,
    },
}

/// The command line as a whole: an optional subcommand, and the arguments
/// of the default command.
#[derive(Clone, Debug, PartialEq, Eq)]
pub struct Cli {
    /// The subcommand, if any.
    pub command: Option<Command>,
    /// A list of files (of any kind) for which to format the name.
    pub files: Vec<String>,
    /// The naming convention to use.
    pub naming_convention: Option<NamingConvention>,
    /// Recursively format filenames within directories.
    pub recursive: bool,
    /// Keep dots as ordinary characters instead of separators.
    pub keep_dots: bool,
    /// Keep characters that are neither alphanumeric nor separators.
    pub keep_special_chars: bool,
}

} // verus!
