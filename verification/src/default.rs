//! The default (rename) engine: merged settings, the per-item stem-change
//! plan, and the per-item decision. The filesystem queries and mutations
//! themselves happen outside the library, which only decides.

use vstd::prelude::*;

use crate::cfg::Cfg;
use crate::chars::str_lower_full;
use crate::chars::str_lower_spec;
use crate::chars::str_chars;
use crate::chars::chars_to_string;
use crate::cli::DefaultArgs;
use crate::engine::ConflictResolver;
use crate::exclude::pattern_compiles;
use crate::exclude::patterns_of;
use crate::exclude::ExcludePatterns;
use crate::history::is_ignorable_line;
use crate::history::line_is_ignorable;
use crate::history::lines_view;
use crate::naming_conventions::apply_nc;
use crate::naming_conventions::apply_nc_spec;
use crate::naming_conventions::NamingConvention;
use vstd::string::StringExecFns;

verus! {

/// The first line of the exclude file whose pattern does not compile, as a
/// zero-based index.
pub open spec fn first_bad_pattern(lines: Seq<Seq<char>>, i: int) -> Option<int>
    decreases lines.len() - i,
{
    if i < 0 || i >= lines.len() {
        None
    } else if !is_ignorable_line(lines[i]) && !pattern_compiles(lines[i]) {
        Some(i)
    } else {
        first_bad_pattern(lines, i + 1)
    }
}

/// The patterns the exclude file carries: its non-ignorable lines, in order.
pub open spec fn active_patterns(lines: Seq<Seq<char>>, i: int, out: Seq<Seq<char>>) -> Seq<
    Seq<char>,
>
    decreases lines.len() - i,
{
    if i < 0 || i >= lines.len() {
        out
    } else if is_ignorable_line(lines[i]) {
        active_patterns(lines, i + 1, out)
    } else {
        active_patterns(lines, i + 1, out.push(lines[i]))
    }
}

/// The settings and the compiled exclusion filter of one rename run.
pub struct Data {
    /// The seed paths to process.
    pub files: Vec<String>,
    /// The naming convention to apply.
    pub naming_convention: NamingConvention,
    /// Recursively format filenames within directories.
    pub recursive: bool,
    /// Keep dots as ordinary characters instead of separators.
    pub keep_dots: bool,
    /// Keep characters that are neither alphanumeric nor separators.
    pub keep_special_chars: bool,
    /// Keep non-ASCII characters instead of transliterating them.
    pub keep_unicode: bool,
    /// The compiled exclude patterns.
    pub exclude_patterns: ExcludePatterns,
}

/// The error of [`Data::new`]: an exclude-file line that is not a valid
/// regular expression, by zero-based line index.
#[derive(Clone, Copy, Debug, PartialEq, Eq)]
pub struct InvalidExcludeLine {
    /// The zero-based index of the offending line.
    pub line_no: usize,
}

impl Data {
    /// Merges `cli` and `cfg` (the CLI takes precedence) and compiles the
    /// exclude file's patterns; fails on the first line that does not
    /// compile, naming it.
    pub fn new(cli: DefaultArgs, cfg: Cfg, exclude_lines: &Vec<String>) -> (r: Result<
        Data,
        InvalidExcludeLine,
    >)
        ensures
            r is Ok <==> first_bad_pattern(lines_view(exclude_lines@), 0) is None,
            r matches Err(e) ==> first_bad_pattern(lines_view(exclude_lines@), 0) == Some(
                e.line_no as int,
            ),
            r matches Ok(d) ==> d.files == cli.files && d.naming_convention == (
            match cli.naming_convention {
                Some(nc) => nc,
                None => cfg.naming_convention,
            }) && d.recursive == (cli.recursive || cfg.recursive) && d.keep_dots == (cli.keep_dots
                || cfg.keep_dots) && d.keep_special_chars == (cli.keep_special_chars
                || cfg.keep_special_chars) && d.keep_unicode == (cli.keep_unicode
                || cfg.keep_unicode) && patterns_of(
                d.exclude_patterns,
            ) == active_patterns(lines_view(exclude_lines@), 0, Seq::empty()),
    {
        let ghost lv = lines_view(exclude_lines@);
        let naming_convention = match cli.naming_convention {
            Some(nc) => nc,
            None => cfg.naming_convention,
        };
        let mut exclude_patterns = ExcludePatterns::new();
        let mut i: usize = 0;
        proof {
            assert(patterns_of(exclude_patterns) =~= Seq::<Seq<char>>::empty());
        }
        while i < exclude_lines.len()
            invariant
                lv == lines_view(exclude_lines@),
                i <= exclude_lines@.len(),
                first_bad_pattern(lv, i as int) == first_bad_pattern(lv, 0),
                active_patterns(lv, i as int, patterns_of(exclude_patterns)) == active_patterns(
                    lv,
                    0,
                    Seq::empty(),
                ),
            decreases exclude_lines@.len() - i,
        {
            let ghost pre = patterns_of(exclude_patterns);
            let line = &exclude_lines[i];
            proof {
                assert(lv[i as int] == exclude_lines@[i as int]@);
            }
            if !line_is_ignorable(line.as_str()) {
                if !exclude_patterns.try_add(line.as_str()) {
                    return Err(InvalidExcludeLine { line_no: i });
                }
            }
            i = i + 1;
        }
        Ok(
            Data {
                files: cli.files,
                naming_convention,
                recursive: cli.recursive || cfg.recursive,
                keep_dots: cli.keep_dots || cfg.keep_dots,
                keep_special_chars: cli.keep_special_chars || cfg.keep_special_chars,
                keep_unicode: cli.keep_unicode || cfg.keep_unicode,
                exclude_patterns,
            },
        )
    }
}

/// The per-item failures of the stem change, before or at the rename.
#[derive(Clone, Copy, Debug, PartialEq, Eq)]
pub enum ChangeStemError {
    /// The file does not exist.
    FileDoesntExist,
    /// The filename has no stem.
    FailedToRetrieveFileStem,
    /// The stem is not valid Unicode.
    FileHasInvalidUnicode,
    /// The path could not be made absolute.
    FailedToAbsolutizeFile,
    /// The file has no parent directory.
    FileHasNoParentDirectory,
    /// The rename itself failed.
    FailedToRename,
}

/// The message recorded and shown for a per-item failure. For the two
/// failures that carry an underlying cause the caller appends its text.
pub fn error_message(e: &ChangeStemError) -> (r: String)
    ensures
        *e == ChangeStemError::FileDoesntExist ==> r@ == "File doesn't exist."@,
        *e == ChangeStemError::FailedToRetrieveFileStem ==> r@ == "Failed to find the stem."@,
        *e == ChangeStemError::FileHasInvalidUnicode ==> r@
            == "File contains invalid unicode characters."@,
        *e == ChangeStemError::FailedToAbsolutizeFile ==> r@ == "Failed to absolutize."@,
        *e == ChangeStemError::FileHasNoParentDirectory ==> r@ == "File has no parent directory"@,
        *e == ChangeStemError::FailedToRename ==> r@ == "Failed to rename."@,
{
    match e {
        ChangeStemError::FileDoesntExist => String::from_str("File doesn't exist."),
        ChangeStemError::FailedToRetrieveFileStem => String::from_str("Failed to find the stem."),
        ChangeStemError::FileHasInvalidUnicode => String::from_str(
            "File contains invalid unicode characters.",
        ),
        ChangeStemError::FailedToAbsolutizeFile => String::from_str("Failed to absolutize."),
        ChangeStemError::FileHasNoParentDirectory => String::from_str(
            "File has no parent directory",
        ),
        ChangeStemError::FailedToRename => String::from_str("Failed to rename."),
    }
}

/// A filename assembled from its stem and optional extension.
pub open spec fn full_name_spec(stem: Seq<char>, ext: Option<Seq<char>>) -> Seq<char> {
    match ext {
        Some(e) => stem + seq!['.'] + e,
        None => stem,
    }
}

/// The view of an optional string slice.
pub open spec fn opt_str_slice_view(o: Option<&str>) -> Option<Seq<char>> {
    match o {
        Some(s) => Some(s@),
        None => None,
    }
}

/// The planned new filename for one item: nothing when no rename is needed —
/// the converted stem equals the old one (only by letter case, on a
/// case-insensitive filesystem) — and the converted full name otherwise.
pub open spec fn plan_spec(
    nc: NamingConvention,
    stem: Seq<char>,
    ext: Option<Seq<char>>,
    kd: bool,
    ks: bool,
    ku: bool,
    ci: bool,
) -> Option<Seq<char>> {
    let ns = apply_nc_spec(nc, stem, kd, ks, ku);
    if ci && str_lower_spec(ns) == str_lower_spec(stem) {
        None
    } else {
        let full = full_name_spec(ns, ext);
        let old_full = full_name_spec(stem, ext);
        if full == old_full {
            None
        } else {
            Some(full)
        }
    }
}

/// Computes the new filename of one item, or nothing when no rename is
/// needed. `case_insensitive` says whether the target filesystem treats
/// names that differ only by letter case as the same file.
pub fn plan_new_filename(
    nc: &NamingConvention,
    stem: &str,
    ext: Option<&str>,
    keep_dots: bool,
    keep_special_chars: bool,
    keep_unicode: bool,
    case_insensitive: bool,
) -> (r: Option<String>)
    ensures
        (match r {
            Some(s) => Some(s@),
            None => None,
        }) == plan_spec(
            *nc,
            stem@,
            opt_str_slice_view(ext),
            keep_dots,
            keep_special_chars,
            keep_unicode,
            case_insensitive,
        ),
{
    let new_stem = apply_nc(nc, stem, keep_dots, keep_special_chars, keep_unicode);
    if case_insensitive {
        let a = str_lower_full(new_stem.as_str());
        let b = str_lower_full(stem);
        if a == b {
            return None;
        }
    }
    let full = join_name(new_stem.as_str(), ext);
    let old_full = join_name(stem, ext);
    if full == old_full {
        None
    } else {
        Some(full)
    }
}

/// Joins a stem and an optional extension into a filename.
fn join_name(stem: &str, ext: Option<&str>) -> (r: String)
    ensures
        r@ == full_name_spec(stem@, opt_str_slice_view(ext)),
{
    match ext {
        None => {
            let v = str_chars(stem);
            let s = chars_to_string(&v);
            proof {
                assert(s@ =~= full_name_spec(stem@, opt_str_slice_view(ext)));
            }
            s
        },
        Some(e) => {
            let mut v = str_chars(stem);
            v.push('.');
            let mut tail = str_chars(e);
            v.append(&mut tail);
            proof {
                assert(v@ =~= full_name_spec(stem@, opt_str_slice_view(ext)));
            }
            chars_to_string(&v)
        },
    }
}

/// What the engine does with one work item, once the filesystem facts are
/// in: nothing for an excluded item, the error interaction for a failed
/// one, directory expansion only for an unchanged name, the rename when the
/// destination is free, and conflict resolution when it is taken.
#[derive(Clone, Debug, PartialEq, Eq)]
pub enum ProcessDecision {
    /// Excluded: drop silently, no record, no rename.
    Ignore,
    /// The stem change failed: acknowledge and record the error.
    Error(ChangeStemError),
    /// The name is already as the convention wants it: no rename, no
    /// record; a real directory is still expanded when running recursively.
    NoRename,
    /// Rename to the carried filename and record it.
    DoRename(String),
    /// The destination exists: resolve the conflict.
    Conflict(String),
}

/// Decides one work item from the exclusion verdict, the planned stem
/// change, and whether the planned destination already exists.
pub fn process_decision(
    excluded: bool,
    outcome: Result<Option<String>, ChangeStemError>,
    dest_exists: bool,
) -> (r: ProcessDecision)
    ensures
        excluded ==> r == ProcessDecision::Ignore,
        !excluded ==> (outcome matches Err(e) ==> r == ProcessDecision::Error(e)),
        !excluded ==> (outcome matches Ok(None) ==> r == ProcessDecision::NoRename),
        !excluded && dest_exists ==> (outcome matches Ok(Some(n)) ==> r
            == ProcessDecision::Conflict(n)),
        !excluded && !dest_exists ==> (outcome matches Ok(Some(n)) ==> r
            == ProcessDecision::DoRename(n)),
{
    if excluded {
        return ProcessDecision::Ignore;
    }
    match outcome {
        Err(e) => ProcessDecision::Error(e),
        Ok(None) => ProcessDecision::NoRename,
        Ok(Some(n)) => {
            if dest_exists {
                ProcessDecision::Conflict(n)
            } else {
                ProcessDecision::DoRename(n)
            }
        },
    }
}

/// The default engine: the merged settings with the compiled exclusion
/// filter, and the conflict resolver of the run.
pub struct DefaultEngine {
    /// The settings and exclusion filter.
    pub data: Data,
    /// The conflict resolver, fresh at the start of the run.
    pub resolver: ConflictResolver,
}

impl DefaultEngine {
    /// Builds the engine from the command line, the configuration and the
    /// exclude file's lines.
    pub fn new(cli: DefaultArgs, cfg: Cfg, exclude_lines: &Vec<String>) -> (r: Result<
        DefaultEngine,
        InvalidExcludeLine,
    >)
        ensures
            r is Ok <==> first_bad_pattern(lines_view(exclude_lines@), 0) is None,
            r matches Err(e) ==> first_bad_pattern(lines_view(exclude_lines@), 0) == Some(
                e.line_no as int,
            ),
            r matches Ok(en) ==> en.resolver.sticky is None,
    {
        let data = Data::new(cli, cfg, exclude_lines)?;
        Ok(DefaultEngine { data, resolver: ConflictResolver::new() })
    }
}

/// Returns the engine for the default subcommand, parameterized by `cli`,
/// `cfg` and the exclude file's lines, or the offending line if one of its
/// patterns does not compile.
pub fn get_engine(cli: DefaultArgs, cfg: Cfg, exclude_lines: &Vec<String>) -> (r: Result<
    DefaultEngine,
    InvalidExcludeLine,
>)
    ensures
        r is Ok <==> first_bad_pattern(lines_view(exclude_lines@), 0) is None,
        r matches Err(e) ==> first_bad_pattern(lines_view(exclude_lines@), 0) == Some(
            e.line_no as int,
        ),
        r matches Ok(en) ==> en.resolver.sticky is None,
{
    DefaultEngine::new(cli, cfg, exclude_lines)
}

} // verus!
