//! Opening the exclude file for edition: the choice of editor. Launching
//! the editor process happens outside the library.

use vstd::prelude::*;

use crate::cfg::Cfg;
use crate::cli::EditCli;

verus! {

/// The editor to run.
pub struct Data {
    /// The chosen editor command.
    pub editor: String,
}

impl Data {
    /// Picks the editor: the command-line choice where one was given, the
    /// configured one otherwise.
    pub fn new(cli: EditCli, cfg: Cfg) -> (r: Data)
        ensures
            cli.editor matches Some(e) ==> r.editor == e,
            cli.editor is None ==> r.editor == cfg.editor,
    {
        let editor = match cli.editor {
            Some(e) => e,
            None => cfg.editor,
        };
        Data { editor }
    }
}

/// The engine of the edit subcommand.
pub struct EditEngine {
    /// The chosen editor.
    pub data: Data,
}

impl EditEngine {
    /// Builds the engine.
    pub fn new(cli: EditCli, cfg: Cfg) -> (r: EditEngine)
        ensures
            cli.editor matches Some(e) ==> r.data.editor == e,
            cli.editor is None ==> r.data.editor == cfg.editor,
    {
        EditEngine { data: Data::new(cli, cfg) }
    }
}

/// Returns the engine for the edit subcommand, parameterized by `cli` and
/// `cfg`.
pub fn get_engine(cli: EditCli, cfg: Cfg) -> (r: EditEngine)
    ensures
        cli.editor matches Some(e) ==> r.data.editor == e,
        cli.editor is None ==> r.data.editor == cfg.editor,
{
    EditEngine::new(cli, cfg)
}

} // verus!
