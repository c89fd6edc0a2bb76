//! Engine selection and the conflict-resolution state machine.
//!
//! A subcommand engine pairs a decision core, verified here, with the
//! filesystem and terminal work that the surrounding program performs. The
//! conflict resolver is the shared state machine of the forward and the
//! revert engines: it answers every conflict, and a "sticky" choice, once
//! taken, answers all further ones without a prompt.

use vstd::prelude::*;

use crate::cfg::Cfg;
use crate::cli::AddCli;
use crate::cli::Cli;
use crate::cli::Command;
use crate::cli::DefaultArgs;
use crate::cli::DelCli;
use crate::cli::EditCli;
use crate::cli::ExcludeCommand;
use crate::cli::RevertCli;
use crate::prompt::AlreadyExistPromptOptions;

verus! {

/// A subcommand engine: a structure that encapsulates the logic of a
/// subcommand. The run itself touches the filesystem, so the library only
/// fixes the interface; the surrounding program implements it over the
/// decision functions of this crate.
pub trait Engine {
    /// Runs the engine; an error message is returned when the run fails.
    fn run(&mut self) -> Result<(), String>;
}

/// The engine a command line selects.
#[derive(Clone, Debug, PartialEq, Eq)]
pub enum EngineChoice {
    /// The default engine: rename the given files.
    Default(DefaultArgs),
    /// Add a pattern to the exclude file.
    ExcludeAdd(AddCli),
    /// Delete a pattern from the exclude file.
    ExcludeDel(DelCli),
    /// Open the exclude file in an editor.
    ExcludeEdit(EditCli),
    /// Revert the changes a history file records.
    Revert(RevertCli),
}

/// Returns the engine corresponding to the given `cli`: the subcommand where
/// one is named, the default (rename) engine otherwise. The flat command
/// line carries no keep-unicode flag, so the default engine starts with it
/// unset.
pub fn get_engine(cli: Cli, cfg: Cfg) -> (r: EngineChoice)
    ensures
        cli.command is None ==> r == EngineChoice::Default(
            DefaultArgs {
                files: cli.files,
                naming_convention: cli.naming_convention,
                recursive: cli.recursive,
                keep_dots: cli.keep_dots,
                keep_special_chars: cli.keep_special_chars,
                keep_unicode: false,
            },
        ),
        cli.command matches Some(Command::Revert { history_file }) ==> r == EngineChoice::Revert(
            RevertCli { history_file },
        ),
        cli.command matches Some(
            Command::Exclude { command: ExcludeCommand::Add { pattern } },
        ) ==> r == EngineChoice::ExcludeAdd(AddCli { pattern }),
        cli.command matches Some(
            Command::Exclude { command: ExcludeCommand::Del { pattern } },
        ) ==> r == EngineChoice::ExcludeDel(DelCli { pattern }),
        cli.command matches Some(
            Command::Exclude { command: ExcludeCommand::Edit { editor } },
        ) ==> r == EngineChoice::ExcludeEdit(EditCli { editor }),
{
    let _ = cfg;
    match cli.command {
        None => EngineChoice::Default(
            DefaultArgs {
                files: cli.files,
                naming_convention: cli.naming_convention,
                recursive: cli.recursive,
                keep_dots: cli.keep_dots,
                keep_special_chars: cli.keep_special_chars,
                keep_unicode: false,
            },
        ),
        Some(Command::Revert { history_file }) => EngineChoice::Revert(
            RevertCli { history_file },
        ),
        Some(Command::Exclude { command }) => match command {
            ExcludeCommand::Add { pattern } => EngineChoice::ExcludeAdd(AddCli { pattern }),
            ExcludeCommand::Del { pattern } => EngineChoice::ExcludeDel(DelCli { pattern }),
            ExcludeCommand::Edit { editor } => EngineChoice::ExcludeEdit(EditCli { editor }),
        },
    }
}

/// What a resolved conflict does to the filesystem.
#[derive(Clone, Copy, Debug, PartialEq, Eq)]
pub enum Action {
    /// Leave both files alone.
    Skip,
    /// Move the existing file to the backup directory, then rename.
    Backup,
    /// Rename over the existing file.
    Overwrite,
}

/// The action a prompt choice performs.
pub open spec fn action_of(choice: AlreadyExistPromptOptions) -> Action {
    match choice {
        AlreadyExistPromptOptions::Skip => Action::Skip,
        AlreadyExistPromptOptions::AlwaysSkip => Action::Skip,
        AlreadyExistPromptOptions::Backup => Action::Backup,
        AlreadyExistPromptOptions::AlwaysBackup => Action::Backup,
        AlreadyExistPromptOptions::Overwrite => Action::Overwrite,
        AlreadyExistPromptOptions::AlwaysOverwrite => Action::Overwrite,
    }
}

/// The sticky action a prompt choice leaves behind: the "always" variants
/// latch their action, the plain ones change nothing.
pub open spec fn sticky_of(
    choice: AlreadyExistPromptOptions,
    prev: Option<Action>,
) -> Option<Action> {
    match choice {
        AlreadyExistPromptOptions::AlwaysSkip => Some(Action::Skip),
        AlreadyExistPromptOptions::AlwaysBackup => Some(Action::Backup),
        AlreadyExistPromptOptions::AlwaysOverwrite => Some(Action::Overwrite),
        _ => prev,
    }
}

/// The conflict-resolution state machine: an optional sticky action, empty
/// at the start of every run.
pub struct ConflictResolver {
    /// The latched choice, if an "always" option was taken this run.
    pub sticky: Option<Action>,
}

impl ConflictResolver {
    /// A fresh resolver, with no sticky action latched.
    pub fn new() -> (r: ConflictResolver)
        ensures
            r.sticky is None,
    {
        ConflictResolver { sticky: None }
    }

    /// Whether the next conflict needs a prompt: only while no sticky action
    /// is latched.
    pub fn needs_prompt(&self) -> (r: bool)
        ensures
            r == (self.sticky is None),
    {
        match self.sticky {
            None => true,
            Some(_) => false,
        }
    }

    /// Resolves one conflict. While no sticky action is latched the caller
    /// must supply the prompted choice; once one is latched the choice is
    /// ignored, no prompt is needed, and the latched action answers.
    pub fn resolve(&mut self, choice: Option<AlreadyExistPromptOptions>) -> (a: Action)
        requires
            old(self).sticky is Some || choice is Some,
        ensures
            old(self).sticky matches Some(st) ==> a == st && final(self).sticky == old(self).sticky,
            old(self).sticky is None ==> a == action_of(choice->0) && final(self).sticky == sticky_of(
                choice->0,
                old(self).sticky,
            ),
    {
        match self.sticky {
            Some(st) => st,
            None => {
                let c = match choice {
                    Some(c) => c,
                    None => AlreadyExistPromptOptions::Skip,  // unreachable: requires
                };
                match c {
                    AlreadyExistPromptOptions::Skip => Action::Skip,
                    AlreadyExistPromptOptions::AlwaysSkip => {
                        self.sticky = Some(Action::Skip);
                        Action::Skip
                    },
                    AlreadyExistPromptOptions::Backup => Action::Backup,
                    AlreadyExistPromptOptions::AlwaysBackup => {
                        self.sticky = Some(Action::Backup);
                        Action::Backup
                    },
                    AlreadyExistPromptOptions::Overwrite => Action::Overwrite,
                    AlreadyExistPromptOptions::AlwaysOverwrite => {
                        self.sticky = Some(Action::Overwrite);
                        Action::Overwrite
                    },
                }
            },
        }
    }
}

/// The actions a run of conflicts resolves to, starting from sticky state
/// `st`, where `answers[k]` is what the user would answer if the `k`-th
/// conflict were prompted.
pub open spec fn run_actions(
    st: Option<Action>,
    answers: Seq<AlreadyExistPromptOptions>,
    k: int,
) -> Seq<Action>
    decreases answers.len() - k,
{
    if k < 0 || k >= answers.len() {
        Seq::empty()
    } else {
        match st {
            Some(a) => seq![a] + run_actions(st, answers, k + 1),
            None => seq![action_of(answers[k])] + run_actions(
                sticky_of(answers[k], st),
                answers,
                k + 1,
            ),
        }
    }
}

/// The number of prompts such a run shows: one per conflict until a sticky
/// action latches, none afterwards.
pub open spec fn run_prompts(
    st: Option<Action>,
    answers: Seq<AlreadyExistPromptOptions>,
    k: int,
) -> int
    decreases answers.len() - k,
{
    if k < 0 || k >= answers.len() {
        0
    } else {
        match st {
            Some(_) => run_prompts(st, answers, k + 1),
            None => 1 + run_prompts(sticky_of(answers[k], st), answers, k + 1),
        }
    }
}

/// With a sticky action latched, a run of conflicts prompts nobody and
/// resolves every conflict to the latched action.
pub proof fn lemma_sticky_run(a: Action, answers: Seq<AlreadyExistPromptOptions>, k: int)
    requires
        0 <= k <= answers.len(),
    ensures
        run_prompts(Some(a), answers, k) == 0,
        run_actions(Some(a), answers, k).len() == answers.len() - k,
        forall|j: int|
            0 <= j < answers.len() - k ==> run_actions(Some(a), answers, k)[j] == a,
    decreases answers.len() - k,
{
    if k < answers.len() {
        lemma_sticky_run(a, answers, k + 1);
    }
}

/// Sticky propagation: once the `k`-th conflict is answered with an
/// "always" option, no further prompt occurs for the remainder of the run,
/// and every later conflict resolves to that same action.
pub proof fn lemma_sticky_propagation(
    answers: Seq<AlreadyExistPromptOptions>,
    k: int,
)
    requires
        0 <= k < answers.len(),
        sticky_of(answers[k], None) is Some,
        forall|j: int| 0 <= j < k ==> sticky_of(#[trigger] answers[j], None) is None,
    ensures
        run_prompts(None, answers, 0) == k + 1,
        run_actions(None, answers, 0).len() == answers.len(),
        forall|j: int|
            k <= j < answers.len() ==> run_actions(None, answers, 0)[j] == action_of(answers[k]),
{
    lemma_run_from(answers, 0, k);
}

/// The run from position `i` on, with everything before position `k` plain
/// (non-"always") and position `k` an "always" answer: it prompts once per
/// conflict up to `k` and resolves everything from `k` on to `k`'s action.
proof fn lemma_run_from(answers: Seq<AlreadyExistPromptOptions>, i: int, k: int)
    requires
        0 <= i <= k < answers.len(),
        sticky_of(answers[k], None) is Some,
        forall|j: int| 0 <= j < k ==> sticky_of(#[trigger] answers[j], None) is None,
    ensures
        run_prompts(None, answers, i) == k + 1 - i,
        run_actions(None, answers, i).len() == answers.len() - i,
        forall|j: int|
            k - i <= j < answers.len() - i ==> run_actions(None, answers, i)[j] == action_of(
                answers[k],
            ),
    decreases k - i,
{
    if i == k {
        lemma_sticky_run(action_of(answers[k]), answers, k + 1);
        assert(sticky_of(answers[k], None) == Some(action_of(answers[k])));
    } else {
        assert(sticky_of(answers[i], None) is None);
        lemma_run_from(answers, i + 1, k);
    }
}

} // verus!
