//! The exclusion filter and the exclude subcommands.
//!
//! Patterns are regular expressions, matched against the filename component
//! only. The compiled set lives behind a trusted boundary: Verus cannot look
//! into a compiled regex, so the struct is opaque and its contents are named
//! by `patterns_of`; every method the logic calls is a wrapper whose
//! contract speaks over that name.

pub mod add;
pub mod del;
pub mod edit;

use vstd::prelude::*;

use crate::cfg::Cfg;
use crate::cli::ExcludeCli;
use crate::cli::ExcludeCommand;
use crate::cli::AddCli;
use crate::cli::DelCli;
use crate::cli::EditCli;
use crate::engine::EngineChoice;

verus! {

/// Whether `regex::Regex::new` accepts the pattern.
pub uninterp spec fn pattern_compiles(pat: Seq<char>) -> bool;

/// Whether the compiled pattern matches somewhere in the text, as
/// `regex::Regex::is_match` decides it.
pub uninterp spec fn regex_matches(pat: Seq<char>, text: Seq<char>) -> bool;

/// An ordered set of compiled exclude patterns. The compiled regexes are
/// opaque to Verus, so the whole struct is held behind a trusted boundary;
/// `patterns_of` names the pattern texts it holds, in insertion order.
#[verifier::external_body]
pub struct ExcludePatterns {
    regexes: Vec<regex::Regex>,
}

/// The pattern texts a compiled set holds, in insertion order.
pub uninterp spec fn patterns_of(ps: ExcludePatterns) -> Seq<Seq<char>>;

impl ExcludePatterns {
    /// An empty set, which matches nothing.
    ///
    /// Relies on `Vec::new`: the fresh set holds no pattern.
    #[verifier::external_body]
    pub fn new() -> (r: ExcludePatterns)
        ensures
            patterns_of(r) == Seq::<Seq<char>>::empty(),
    {
        ExcludePatterns { regexes: Vec::new() }
    }

    /// Compiles `pat` and appends it to the set.
    ///
    /// Relies on `regex::Regex::new`: it compiles exactly the valid
    /// patterns; on success the compiled regex is kept, in order.
    #[verifier::external_body]
    pub fn try_add(&mut self, pat: &str) -> (ok: bool)
        ensures
            ok == pattern_compiles(pat@),
            ok ==> patterns_of(*final(self)) == patterns_of(*old(self)).push(pat@),
            !ok ==> patterns_of(*final(self)) == patterns_of(*old(self)),
    {
        match regex::Regex::new(pat) {
            Ok(re) => {
                self.regexes.push(re);
                true
            },
            Err(_) => false,
        }
    }

    /// The number of compiled patterns.
    ///
    /// Relies on `Vec::len` over the hidden vector of compiled regexes.
    #[verifier::external_body]
    pub fn len(&self) -> (n: usize)
        ensures
            n == patterns_of(*self).len(),
    {
        self.regexes.len()
    }

    /// Whether the `i`-th pattern matches somewhere in `text`.
    ///
    /// Relies on `regex::Regex::is_match` on the `i`-th compiled pattern.
    #[verifier::external_body]
    pub fn is_match_at(&self, i: usize, text: &str) -> (r: bool)
        requires
            i < patterns_of(*self).len(),
        ensures
            r == regex_matches(patterns_of(*self)[i as int], text@),
    {
        self.regexes[i].is_match(text)
    }
}

/// Whether a path must be skipped entirely: a path without a filename
/// component always is — the deliberate fail-safe — and otherwise exactly
/// the filenames some compiled pattern matches.
pub fn should_exclude(patterns: &ExcludePatterns, filename: Option<&str>) -> (r: bool)
    ensures
        filename is None ==> r,
        filename matches Some(name) ==> r == exists|i: int|
            0 <= i < patterns_of(*patterns).len() && regex_matches(
                #[trigger] patterns_of(*patterns)[i],
                name@,
            ),
{
    if filename.is_none() {
        return true;
    }
    let name = filename.unwrap();
    let n = patterns.len();
    let mut i: usize = 0;
    while i < n
        invariant
            name == filename->0,
            n == patterns_of(*patterns).len(),
            i <= n,
            forall|j: int|
                0 <= j < i ==> !regex_matches(#[trigger] patterns_of(*patterns)[j], name@),
        decreases n - i,
    {
        if patterns.is_match_at(i, name) {
            proof {
                assert(regex_matches(patterns_of(*patterns)[i as int], name@));
                assert(exists|j: int|
                    0 <= j < patterns_of(*patterns).len() && regex_matches(
                        #[trigger] patterns_of(*patterns)[j],
                        name@,
                    ));
            }
            return true;
        }
        i = i + 1;
    }
    false
}

/// Returns the engine for the exclude subcommand, parameterized by `cli`.
pub fn get_engine(cli: ExcludeCli, cfg: Cfg) -> (r: EngineChoice)
    ensures
        cli.command matches ExcludeCommand::Add { pattern } ==> r == EngineChoice::ExcludeAdd(
            AddCli { pattern },
        ),
        cli.command matches ExcludeCommand::Del { pattern } ==> r == EngineChoice::ExcludeDel(
            DelCli { pattern },
        ),
        cli.command matches ExcludeCommand::Edit { editor } ==> r == EngineChoice::ExcludeEdit(
            EditCli { editor },
        ),
{
    let _ = cfg;
    match cli.command {
        ExcludeCommand::Add { pattern } => EngineChoice::ExcludeAdd(AddCli { pattern }),
        ExcludeCommand::Del { pattern } => EngineChoice::ExcludeDel(DelCli { pattern }),
        ExcludeCommand::Edit { editor } => EngineChoice::ExcludeEdit(EditCli { editor }),
    }
}

} // verus!
