//! The interactive prompt protocol: messages, the input alphabet and the
//! per-input step. Reading the terminal happens outside the library; the
//! library decides what each input line means and what to print.

use vstd::prelude::*;
use vstd::string::StrSliceExecFns;
use vstd::string::StringExecFns;

verus! {

/// The canonical options of the conflict prompt. The "always" variants set
/// the sticky action for the remainder of the run.
#[derive(Clone, Copy, Debug, PartialEq, Eq)]
pub enum AlreadyExistPromptOptions {
    /// Do nothing and continue.
    Skip,
    /// Skip this conflict and all further ones.
    AlwaysSkip,
    /// Move the existing file to the backup directory, then rename.
    Backup,
    /// Back up this conflict and all further ones.
    AlwaysBackup,
    /// Rename anyway, overwriting the existing file.
    Overwrite,
    /// Overwrite on this conflict and all further ones.
    AlwaysOverwrite,
}

/// What one line of input means at the conflict prompt: the recognized
/// one-letter options, and nothing else.
pub open spec fn match_input_spec(s: Seq<char>) -> Option<AlreadyExistPromptOptions> {
    if s == seq!['s'] {
        Some(AlreadyExistPromptOptions::Skip)
    } else if s == seq!['S'] {
        Some(AlreadyExistPromptOptions::AlwaysSkip)
    } else if s == seq!['b'] {
        Some(AlreadyExistPromptOptions::Backup)
    } else if s == seq!['B'] {
        Some(AlreadyExistPromptOptions::AlwaysBackup)
    } else if s == seq!['o'] {
        Some(AlreadyExistPromptOptions::Overwrite)
    } else if s == seq!['O'] {
        Some(AlreadyExistPromptOptions::AlwaysOverwrite)
    } else {
        None
    }
}

impl AlreadyExistPromptOptions {
    /// Maps one input line to the option it selects, if any.
    pub fn match_input(input: &str) -> (r: Option<AlreadyExistPromptOptions>)
        ensures
            r == match_input_spec(input@),
    {
        let n = input.unicode_len();
        if n != 1 {
            proof {
                assert(input@ != seq!['s'] && input@ != seq!['S'] && input@ != seq!['b']
                    && input@ != seq!['B'] && input@ != seq!['o'] && input@ != seq!['O']);
            }
            return None;
        }
        let c = input.get_char(0);
        proof {
            assert(input@ =~= seq![input@[0]]);
        }
        if c == 's' {
            Some(AlreadyExistPromptOptions::Skip)
        } else if c == 'S' {
            Some(AlreadyExistPromptOptions::AlwaysSkip)
        } else if c == 'b' {
            Some(AlreadyExistPromptOptions::Backup)
        } else if c == 'B' {
            Some(AlreadyExistPromptOptions::AlwaysBackup)
        } else if c == 'o' {
            Some(AlreadyExistPromptOptions::Overwrite)
        } else if c == 'O' {
            Some(AlreadyExistPromptOptions::AlwaysOverwrite)
        } else {
            None
        }
    }

    /// The recognized inputs, in the order the prompt lists them.
    pub fn get_valid_inputs() -> (r: Vec<String>)
        ensures
            r@.len() == 6,
            r@[0]@ == seq!['s'],
            r@[1]@ == seq!['S'],
            r@[2]@ == seq!['b'],
            r@[3]@ == seq!['B'],
            r@[4]@ == seq!['o'],
            r@[5]@ == seq!['O'],
    {
        proof {
            reveal_strlit("s");
            reveal_strlit("S");
            reveal_strlit("b");
            reveal_strlit("B");
            reveal_strlit("o");
            reveal_strlit("O");
        }
        let mut v: Vec<String> = Vec::new();
        v.push(String::from_str("s"));
        v.push(String::from_str("S"));
        v.push(String::from_str("b"));
        v.push(String::from_str("B"));
        v.push(String::from_str("o"));
        v.push(String::from_str("O"));
        v
    }
}

/// What the conflict prompt does with one line of input.
#[derive(Clone, Copy, Debug, PartialEq, Eq)]
pub enum PromptReply {
    /// A recognized option was chosen.
    Chosen(AlreadyExistPromptOptions),
    /// The help block must be shown, then the prompt repeats.
    ShowHelp,
    /// The input is invalid; the valid inputs are recalled and the prompt
    /// repeats.
    Invalid,
}

/// One step of the conflict prompt loop: the decision for one input line.
pub fn conflict_prompt_step(input: &str) -> (r: PromptReply)
    ensures
        match_input_spec(input@) matches Some(o) ==> r == PromptReply::Chosen(o),
        match_input_spec(input@) is None && input@ == seq!['h'] ==> r == PromptReply::ShowHelp,
        match_input_spec(input@) is None && input@ != seq!['h'] ==> r == PromptReply::Invalid,
{
    match AlreadyExistPromptOptions::match_input(input) {
        Some(o) => PromptReply::Chosen(o),
        None => {
            let n = input.unicode_len();
            if n == 1 {
                let c = input.get_char(0);
                proof {
                    assert(input@ =~= seq![input@[0]]);
                }
                if c == 'h' {
                    PromptReply::ShowHelp
                } else {
                    PromptReply::Invalid
                }
            } else {
                proof {
                    assert(input@ != seq!['h']);
                }
                PromptReply::Invalid
            }
        },
    }
}

/// The help block echoed when `h` is entered at the conflict prompt.
pub fn conflict_help() -> (r: String)
    ensures
        r@ == "[s]kip : Do nothing and continue.\n[S]kip all : [s]kip for the current conflict and all further conflicts.\n[b]ackup : Move the existing file in the backup directory, then rename the file supposed to be renamed.\n[B]ackup all : [b]ackup for the current conflict and all further conflicts.\n[o]verwrite : Rename anyway, overwriting the existing file in the process (beware data loss!).\n[O]verwrite all : [o]verwrite for the current conflict and all further conflicts."@,
{
    String::from_str(
        "[s]kip : Do nothing and continue.\n[S]kip all : [s]kip for the current conflict and all further conflicts.\n[b]ackup : Move the existing file in the backup directory, then rename the file supposed to be renamed.\n[B]ackup all : [b]ackup for the current conflict and all further conflicts.\n[o]verwrite : Rename anyway, overwriting the existing file in the process (beware data loss!).\n[O]verwrite all : [o]verwrite for the current conflict and all further conflicts.",
    )
}

/// The complaint shown on an unrecognized input at the conflict prompt.
pub fn wrong_input_message() -> (r: String)
    ensures
        r@ == "    Wrong input! Valid inputs are: s, S, b, B, o, O, h. Try again."@,
{
    String::from_str("    Wrong input! Valid inputs are: s, S, b, B, o, O, h. Try again.")
}

/// The blocking error interaction: the message shown for a failed item,
/// which the user acknowledges with any input line.
pub fn error_prompt(path_str: &str, err_mess: &str) -> (r: String)
    ensures
        r@ == "(?) "@ + path_str@ + ": "@ + err_mess@ + "\n    Enter a key to continue: "@,
{
    let mut m = String::from_str("(?) ");
    m.append(path_str);
    m.append(": ");
    m.append(err_mess);
    m.append("\n    Enter a key to continue: ");
    proof {
        assert(m@ =~= "(?) "@ + path_str@ + ": "@ + err_mess@
            + "\n    Enter a key to continue: "@);
    }
    m
}

/// The question asked when the rename target already exists; the answer is
/// read outside and fed to [`conflict_prompt_step`].
pub fn already_exist_prompt(path_str: &str, new_path_str: &str) -> (r: String)
    ensures
        r@ == "(?) "@ + path_str@ + " -> "@ + new_path_str@
            + ": New file already exists.\n    [s]kip [S]kip all [b]ackup [B]ackup all [o]verwrite [O]verwrite all [h]elp: "@,
{
    let mut m = String::from_str("(?) ");
    m.append(path_str);
    m.append(" -> ");
    m.append(new_path_str);
    m.append(
        ": New file already exists.\n    [s]kip [S]kip all [b]ackup [B]ackup all [o]verwrite [O]verwrite all [h]elp: ",
    );
    proof {
        assert(m@ =~= "(?) "@ + path_str@ + " -> "@ + new_path_str@
            + ": New file already exists.\n    [s]kip [S]kip all [b]ackup [B]ackup all [o]verwrite [O]verwrite all [h]elp: "@);
    }
    m
}

} // verus!
