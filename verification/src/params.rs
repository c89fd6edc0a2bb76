//! Aggregation of the command-line and configuration-file settings.

use vstd::prelude::*;

use crate::cfg::Cfg;
use crate::cli::Cli;
use crate::cli::Command;
use crate::cli::ExcludeCommand;
use crate::naming_conventions::NamingConvention;

verus! {

/// An aggregation of configurations coming from the CLI ([`Cli`]) and the
/// configuration file ([`Cfg`]). A configuration coming from the CLI always
/// takes precedence; one coming from the configuration file is applied only
/// when the equivalent is not specified at the CLI level.
#[derive(Debug, PartialEq, Eq)]
pub struct Params {
    /// Same as [`Cli::command`].
    pub command: Option<Command>,
    /// Same as [`Cli::files`].
    pub files: Vec<String>,
    /// The merged naming convention.
    pub naming_convention: NamingConvention,
    /// The merged recursion flag.
    pub recursive: bool,
    /// The merged keep-dots flag.
    pub keep_dots: bool,
    /// The merged keep-special-characters flag.
    pub keep_special_chars: bool,
    /// The merged editor choice, set only for the exclude edit subcommand.
    pub editor: Option<String>,
}

/// The error type of [`Params::new`]; the aggregation itself cannot fail,
/// and the contract says that no value of this type ever comes out.
#[derive(Debug)]
pub struct ParamsError;

/// The editor that the merged settings carry, as a sequence view: the CLI
/// choice where the exclude edit subcommand names one, the configuration
/// value where it does not, nothing for every other command.
pub open spec fn merged_editor(cli: Cli, cfg: Cfg) -> Option<Seq<char>> {
    match cli.command {
        Some(Command::Exclude { command: ExcludeCommand::Edit { editor } }) => match editor {
            Some(e) => Some(e@),
            None => Some(cfg.editor@),
        },
        _ => None,
    }
}

/// The view of an optional string.
pub open spec fn opt_str_view(o: Option<String>) -> Option<Seq<char>> {
    match o {
        Some(s) => Some(s@),
        None => None,
    }
}

impl Params {
    /// Merges `cli` and `cfg`, the CLI taking precedence.
    pub fn new(cli: Cli, cfg: Cfg) -> (r: Result<Params, ParamsError>)
        ensures
            r matches Ok(p) && p.command == cli.command && p.files == cli.files
                && p.naming_convention == (match cli.naming_convention {
                Some(nc) => nc,
                None => cfg.naming_convention,
            }) && p.recursive == (cli.recursive || cfg.recursive) && p.keep_dots == (
            cli.keep_dots || cfg.keep_dots) && p.keep_special_chars == (cli.keep_special_chars
                || cfg.keep_special_chars) && opt_str_view(p.editor) == merged_editor(cli, cfg),
    {
        let naming_convention = match cli.naming_convention {
            Some(nc) => nc,
            None => cfg.naming_convention,
        };
        let recursive = cli.recursive || cfg.recursive;
        let keep_dots = cli.keep_dots || cfg.keep_dots;
        let keep_special_chars = cli.keep_special_chars || cfg.keep_special_chars;
        let editor: Option<String> = match &cli.command {
            Some(Command::Exclude { command: ExcludeCommand::Edit { editor: cli_editor } }) => {
                match cli_editor {
                    Some(e) => Some(e.clone()),
                    None => Some(cfg.editor),
                }
            },
            _ => None,
        };
        Ok(
            Params {
                command: cli.command,
                files: cli.files,
                naming_convention,
                recursive,
                keep_dots,
                keep_special_chars,
                editor,
            },
        )
    }
}

} // verus!
