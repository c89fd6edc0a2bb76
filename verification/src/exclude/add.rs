//! Adding a pattern to the exclude file: validation of the pattern and the
//! decision where it goes. Reading and appending to the file itself happens
//! outside the library.

use vstd::prelude::*;
use vstd::string::StrSliceExecFns;

use crate::cfg::Cfg;
use crate::cli::AddCli;
use crate::exclude::pattern_compiles;
use crate::exclude::patterns_of;
use crate::exclude::ExcludePatterns;
use crate::history::is_ignorable_line;
use crate::history::line_is_ignorable;

verus! {

/// The pattern to add, kept together with its compiled form, which proves
/// that it is a valid regular expression.
pub struct Data {
    /// The validated pattern text.
    pub pattern: String,
    /// Its compiled form.
    pub compiled: ExcludePatterns,
}

/// The error of [`Data::new`]: the given pattern is not a valid regular
/// expression.
#[derive(Clone, Copy, Debug, PartialEq, Eq)]
pub struct InvalidPatternError;

impl Data {
    /// Validates the pattern: succeeds exactly on the patterns the regex
    /// engine compiles.
    pub fn new(cli: AddCli, cfg: Cfg) -> (r: Result<Data, InvalidPatternError>)
        ensures
            r is Ok <==> pattern_compiles(cli.pattern@),
            r matches Ok(d) ==> d.pattern@ == cli.pattern@ && patterns_of(d.compiled) == seq![
                cli.pattern@,
            ],
    {
        let _ = cfg;
        let mut compiled = ExcludePatterns::new();
        if compiled.try_add(cli.pattern.as_str()) {
            proof {
                assert(patterns_of(compiled) =~= seq![cli.pattern@]);
            }
            Ok(Data { pattern: cli.pattern, compiled })
        } else {
            Err(InvalidPatternError)
        }
    }
}

/// The engine of the add subcommand: the validated pattern to append.
pub struct AddEngine {
    /// The validated pattern.
    pub data: Data,
}

impl AddEngine {
    /// Builds the engine, validating the pattern.
    pub fn new(cli: AddCli, cfg: Cfg) -> (r: Result<AddEngine, InvalidPatternError>)
        ensures
            r is Ok <==> pattern_compiles(cli.pattern@),
            r matches Ok(e) ==> e.data.pattern@ == cli.pattern@,
    {
        let data = Data::new(cli, cfg)?;
        Ok(AddEngine { data })
    }
}

/// Returns the engine for the add subcommand, parameterized by `cli`, or an
/// error if the pattern does not compile.
pub fn get_engine(cli: AddCli, cfg: Cfg) -> (r: Result<AddEngine, InvalidPatternError>)
    ensures
        r is Ok <==> pattern_compiles(cli.pattern@),
        r matches Ok(e) ==> e.data.pattern@ == cli.pattern@,
{
    AddEngine::new(cli, cfg)
}

/// Looks for the pattern among the exclude file's lines: the index of the
/// first non-ignorable line equal to it, if any. When one is found the
/// pattern is already excluded and nothing is appended.
pub fn find_pattern_line(lines: &Vec<String>, pattern: &str) -> (r: Option<usize>)
    ensures
        r matches Some(i) ==> i < lines@.len() && !is_ignorable_line(lines@[i as int]@)
            && lines@[i as int]@ == pattern@ && forall|j: int|
            0 <= j < i ==> is_ignorable_line(#[trigger] lines@[j]@) || lines@[j]@ != pattern@,
        r is None ==> forall|j: int|
            0 <= j < lines@.len() ==> is_ignorable_line(#[trigger] lines@[j]@) || lines@[j]@
                != pattern@,
{
    let mut i: usize = 0;
    while i < lines.len()
        invariant
            i <= lines@.len(),
            forall|j: int|
                0 <= j < i ==> is_ignorable_line(#[trigger] lines@[j]@) || lines@[j]@ != pattern@,
        decreases lines@.len() - i,
    {
        let line = &lines[i];
        if !line_is_ignorable(line.as_str()) {
            if str_eq(line.as_str(), pattern) {
                return Some(i);
            }
        }
        i = i + 1;
    }
    None
}

/// Whether two string slices hold the same characters.
pub fn str_eq(a: &str, b: &str) -> (r: bool)
    ensures
        r == (a@ == b@),
{
    let na = a.unicode_len();
    let nb = b.unicode_len();
    if na != nb {
        return false;
    }
    let mut i: usize = 0;
    while i < na
        invariant
            na == a@.len(),
            na == b@.len(),
            i <= na,
            forall|j: int| 0 <= j < i ==> a@[j] == b@[j],
        decreases na - i,
    {
        if a.get_char(i) != b.get_char(i) {
            return false;
        }
        i = i + 1;
    }
    proof {
        assert(a@ =~= b@);
    }
    true
}

} // verus!
