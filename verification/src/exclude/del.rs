//! Deleting a pattern from the exclude file: which lines stay, whether the
//! pattern was found, and the closest pattern to suggest when it was not.
//! Rewriting the file itself happens outside the library.

use vstd::prelude::*;

use crate::cfg::Cfg;
use crate::cli::DelCli;
use crate::exclude::add::str_eq;
use crate::history::is_ignorable_line;
use crate::history::line_is_ignorable;
use crate::history::lines_view;

verus! {

/// The smaller of two naturals.
pub open spec fn min_nat(x: nat, y: nat) -> nat {
    if x <= y {
        x
    } else {
        y
    }
}

/// The Levenshtein edit distance: the least number of single-character
/// insertions, deletions and substitutions that turn `a` into `b`.
pub open spec fn levenshtein(a: Seq<char>, b: Seq<char>) -> nat
    decreases a.len() + b.len(),
{
    if a.len() == 0 {
        b.len()
    } else if b.len() == 0 {
        a.len()
    } else {
        let del = levenshtein(a.drop_last(), b) + 1;
        let ins = levenshtein(a, b.drop_last()) + 1;
        let sub = levenshtein(a.drop_last(), b.drop_last()) + (if a.last() == b.last() {
            0nat
        } else {
            1nat
        });
        min_nat(min_nat(del, ins), sub)
    }
}

/// Relies on `edit_distance::edit_distance`: it computes exactly the
/// Levenshtein distance defined above, by dynamic programming over the
/// characters.
#[verifier::external_body]
fn edit_distance_exec(a: &str, b: &str) -> (r: usize)
    ensures
        r as nat == levenshtein(a@, b@),
{
    edit_distance::edit_distance(a, b)
}

/// The pattern to delete.
pub struct Data {
    /// The pattern text.
    pub pattern: String,
}

impl Data {
    /// Keeps the pattern; nothing can fail here.
    pub fn new(cli: DelCli, cfg: Cfg) -> (r: Data)
        ensures
            r.pattern == cli.pattern,
    {
        let _ = cfg;
        Data { pattern: cli.pattern }
    }
}

/// The engine of the del subcommand.
pub struct DelEngine {
    /// The pattern to delete.
    pub data: Data,
}

impl DelEngine {
    /// Builds the engine.
    pub fn new(cli: DelCli, cfg: Cfg) -> (r: DelEngine)
        ensures
            r.data.pattern == cli.pattern,
    {
        DelEngine { data: Data::new(cli, cfg) }
    }
}

/// Returns the engine for the del subcommand, parameterized by `cli`.
pub fn get_engine(cli: DelCli, cfg: Cfg) -> (r: DelEngine)
    ensures
        r.data.pattern == cli.pattern,
{
    DelEngine::new(cli, cfg)
}

/// One pass over the exclude file's lines: ignorable lines are kept as they
/// are; every line equal to the pattern is removed and marks it found; any
/// other line is kept, and while the pattern is still unseen the line
/// closest to it (by edit distance, first strict improvement wins) is
/// remembered as the suggestion.
pub open spec fn del_rec(
    lines: Seq<Seq<char>>,
    pat: Seq<char>,
    i: int,
    kept: Seq<Seq<char>>,
    found: bool,
    min: int,
    closest: Option<Seq<char>>,
) -> (Seq<Seq<char>>, bool, Option<Seq<char>>)
    decreases lines.len() - i,
{
    if i < 0 || i >= lines.len() {
        (kept, found, closest)
    } else {
        let l = lines[i];
        if is_ignorable_line(l) {
            del_rec(lines, pat, i + 1, kept.push(l), found, min, closest)
        } else if l == pat {
            del_rec(lines, pat, i + 1, kept, true, min, closest)
        } else if !found && (levenshtein(l, pat) as int) < min {
            del_rec(lines, pat, i + 1, kept.push(l), found, levenshtein(l, pat) as int, Some(l))
        } else {
            del_rec(lines, pat, i + 1, kept.push(l), found, min, closest)
        }
    }
}

/// The outcome of deleting `pat` from `lines`.
pub open spec fn del_outcome(lines: Seq<Seq<char>>, pat: Seq<char>) -> (
    Seq<Seq<char>>,
    bool,
    Option<Seq<char>>,
) {
    del_rec(lines, pat, 0, Seq::empty(), false, usize::MAX as int, None)
}

/// The view of an optional string.
pub open spec fn opt_view(o: Option<String>) -> Option<Seq<char>> {
    match o {
        Some(s) => Some(s@),
        None => None,
    }
}

/// What deleting a pattern leaves behind.
pub struct DelOutcome {
    /// The lines to write back, in order.
    pub kept: Vec<String>,
    /// Whether the pattern was found (and removed).
    pub found: bool,
    /// The closest pattern seen before any match, to suggest when the
    /// pattern was not found.
    pub closest: Option<String>,
}

/// The walk finds the pattern exactly when some later non-ignorable line
/// equals it, and removes nothing when it never does.
proof fn lemma_del_rec_props(
    lines: Seq<Seq<char>>,
    pat: Seq<char>,
    i: int,
    kept: Seq<Seq<char>>,
    found: bool,
    min: int,
    closest: Option<Seq<char>>,
)
    requires
        0 <= i <= lines.len(),
    ensures
        ({
            let r = del_rec(lines, pat, i, kept, found, min, closest);
            &&& r.1 == (found || exists|j: int|
                i <= j < lines.len() && !is_ignorable_line(#[trigger] lines[j]) && lines[j] == pat)
            &&& (!r.1 ==> r.0 == kept + lines.skip(i))
        }),
    decreases lines.len() - i,
{
    if i == lines.len() {
        assert(kept + lines.skip(i) =~= kept);
    } else {
        let l = lines[i];
        if is_ignorable_line(l) {
            lemma_del_rec_props(lines, pat, i + 1, kept.push(l), found, min, closest);
            let r = del_rec(lines, pat, i, kept, found, min, closest);
            if !r.1 {
                assert(kept.push(l) + lines.skip(i + 1) =~= kept + lines.skip(i));
            }
        } else if l == pat {
            lemma_del_rec_props(lines, pat, i + 1, kept, true, min, closest);
        } else if !found && (levenshtein(l, pat) as int) < min {
            lemma_del_rec_props(
                lines,
                pat,
                i + 1,
                kept.push(l),
                found,
                levenshtein(l, pat) as int,
                Some(l),
            );
            let r = del_rec(lines, pat, i, kept, found, min, closest);
            if !r.1 {
                assert(kept.push(l) + lines.skip(i + 1) =~= kept + lines.skip(i));
            }
        } else {
            lemma_del_rec_props(lines, pat, i + 1, kept.push(l), found, min, closest);
            let r = del_rec(lines, pat, i, kept, found, min, closest);
            if !r.1 {
                assert(kept.push(l) + lines.skip(i + 1) =~= kept + lines.skip(i));
            }
        }
    }
}

/// Deletes every line equal to `pattern` from `lines`, keeping everything
/// else in order, and remembers the closest pattern for the not-found
/// suggestion.
pub fn delete_pattern(lines: &Vec<String>, pattern: &str) -> (r: DelOutcome)
    ensures
        lines_view(r.kept@) == del_outcome(lines_view(lines@), pattern@).0,
        r.found == del_outcome(lines_view(lines@), pattern@).1,
        opt_view(r.closest) == del_outcome(lines_view(lines@), pattern@).2,
        r.found == exists|j: int|
            0 <= j < lines@.len() && !is_ignorable_line(#[trigger] lines_view(lines@)[j])
                && lines_view(lines@)[j] == pattern@,
        !r.found ==> lines_view(r.kept@) == lines_view(lines@),
{
    proof {
        lemma_del_rec_props(
            lines_view(lines@),
            pattern@,
            0,
            Seq::empty(),
            false,
            usize::MAX as int,
            None,
        );
        assert(Seq::<Seq<char>>::empty() + lines_view(lines@).skip(0) =~= lines_view(lines@));
    }
    let ghost lv = lines_view(lines@);
    let mut kept: Vec<String> = Vec::new();
    let mut found = false;
    let mut min_dist: usize = usize::MAX;
    let mut closest: Option<String> = None;
    let mut i: usize = 0;
    proof {
        assert(lines_view(kept@) =~= Seq::<Seq<char>>::empty());
    }
    while i < lines.len()
        invariant
            lv == lines_view(lines@),
            i <= lines@.len(),
            del_rec(lv, pattern@, i as int, lines_view(kept@), found, min_dist as int, opt_view(
                closest,
            )) == del_outcome(lv, pattern@),
        decreases lines@.len() - i,
    {
        let ghost pre_kept = lines_view(kept@);
        let ghost pre_found = found;
        let ghost pre_min = min_dist as int;
        let ghost pre_closest = opt_view(closest);
        let line = &lines[i];
        proof {
            assert(lv[i as int] == lines@[i as int]@);
        }
        if line_is_ignorable(line.as_str()) {
            kept.push(line.clone());
            proof {
                assert(lines_view(kept@) =~= pre_kept.push(lv[i as int]));
            }
        } else if str_eq(line.as_str(), pattern) {
            found = true;
        } else {
            if !found {
                let dist = edit_distance_exec(line.as_str(), pattern);
                if dist < min_dist {
                    min_dist = dist;
                    closest = Some(line.clone());
                }
            }
            kept.push(line.clone());
            proof {
                assert(lines_view(kept@) =~= pre_kept.push(lv[i as int]));
            }
        }
        i = i + 1;
        proof {
            assert(del_rec(lv, pattern@, i - 1, pre_kept, pre_found, pre_min, pre_closest)
                == del_rec(lv, pattern@, i as int, lines_view(kept@), found, min_dist as int,
            opt_view(closest)));
        }
    }
    DelOutcome { kept, found, closest }
}

} // verus!
