//! The revert engine: parses a transaction log, plans its reverse
//! chronological replay, and aggregates the line numbers that could not be
//! parsed. Reading the file and replaying the plan happen outside the
//! library.

use vstd::prelude::*;
use vstd::string::StringExecFns;

use crate::cfg::Cfg;
use crate::chars::str_lower_full;
use crate::chars::str_lower_spec;
use crate::cli::RevertCli;
use crate::engine::ConflictResolver;
use crate::history::contains_arrow;
use crate::history::is_ignorable_line;
use crate::history::is_op_char;
use crate::history::line_is_ignorable;
use crate::history::lines_view;
use crate::history::parse_history_line;
use crate::history::parse_line_spec;
use crate::history::record_line_spec;
use crate::history::lemma_record_round_trip;

verus! {

/// The history file to revert.
pub struct Data {
    /// The path of the history file.
    pub history_file: String,
}

/// The error of [`Data::new`]: the given history file does not exist.
#[derive(Clone, Copy, Debug, PartialEq, Eq)]
pub struct MissingHistoryFile;

impl Data {
    /// Validates the input: fails exactly when the history file does not
    /// exist, as the caller observed it.
    pub fn new(cli: RevertCli, cfg: Cfg, history_file_exists: bool) -> (r: Result<
        Data,
        MissingHistoryFile,
    >)
        ensures
            r is Ok <==> history_file_exists,
            r matches Ok(d) ==> d.history_file == cli.history_file,
    {
        let _ = cfg;
        if history_file_exists {
            Ok(Data { history_file: cli.history_file })
        } else {
            Err(MissingHistoryFile)
        }
    }
}

/// The revert engine: the validated input and the conflict resolver of the
/// run.
pub struct RevertEngine {
    /// The history file to replay.
    pub data: Data,
    /// The conflict resolver, fresh at the start of the run.
    pub resolver: ConflictResolver,
}

impl RevertEngine {
    /// Builds the engine; fails exactly when the history file does not
    /// exist.
    pub fn new(cli: RevertCli, cfg: Cfg, history_file_exists: bool) -> (r: Result<
        RevertEngine,
        MissingHistoryFile,
    >)
        ensures
            r is Ok <==> history_file_exists,
            r matches Ok(e) ==> e.data.history_file == cli.history_file && e.resolver.sticky
                is None,
    {
        let data = Data::new(cli, cfg, history_file_exists)?;
        Ok(RevertEngine { data, resolver: ConflictResolver::new() })
    }
}

/// Returns the engine for the revert subcommand, parameterized by `cli` and
/// `cfg`, or an error when the history file does not exist.
pub fn get_engine(cli: RevertCli, cfg: Cfg, history_file_exists: bool) -> (r: Result<
    RevertEngine,
    MissingHistoryFile,
>)
    ensures
        r is Ok <==> history_file_exists,
        r matches Ok(e) ==> e.data.history_file == cli.history_file && e.resolver.sticky is None,
{
    RevertEngine::new(cli, cfg, history_file_exists)
}

// ---------------------------------------------------------------------------
// The plan: reverse replay and invalid-line aggregation
// ---------------------------------------------------------------------------

/// A line the revert cannot use: not ignorable, and either failing the
/// record grammar or carrying an opcode that is not one of `d`, `s`, `b`,
/// `o`.
pub open spec fn line_invalid_spec(l: Seq<char>) -> bool {
    &&& !is_ignorable_line(l)
    &&& match parse_line_spec(l) {
        None => true,
        Some(t) => !is_op_char(t.0),
    }
}

/// Whether a parsed record needs no revert: source and destination are the
/// same path, or differ only by letter case on a case-insensitive
/// filesystem.
pub open spec fn skip_identical(from: Seq<char>, to: Seq<char>, ci: bool) -> bool {
    from == to || (ci && str_lower_spec(from) == str_lower_spec(to))
}

/// The one-based numbers of the invalid lines among `lines[0..=i]`, in the
/// order the reverse pass meets them (descending).
pub open spec fn invalids_rec(lines: Seq<Seq<char>>, i: int) -> Seq<int>
    decreases i + 1,
{
    if i < 0 || i >= lines.len() {
        Seq::empty()
    } else if line_invalid_spec(lines[i]) {
        seq![i + 1] + invalids_rec(lines, i - 1)
    } else {
        invalids_rec(lines, i - 1)
    }
}

/// The records to replay among `lines[0..=i]`, last line first: the parsed
/// action records whose source and destination actually differ.
pub open spec fn items_rec(lines: Seq<Seq<char>>, i: int, ci: bool) -> Seq<
    (char, Seq<char>, Seq<char>),
>
    decreases i + 1,
{
    if i < 0 || i >= lines.len() {
        Seq::empty()
    } else {
        let rest = items_rec(lines, i - 1, ci);
        let l = lines[i];
        if is_ignorable_line(l) {
            rest
        } else {
            match parse_line_spec(l) {
                None => rest,
                Some(t) => if !is_op_char(t.0) {
                    rest
                } else if skip_identical(t.1, t.2, ci) {
                    rest
                } else {
                    seq![t] + rest
                },
            }
        }
    }
}

/// One record to replay.
#[derive(Clone, Debug, PartialEq, Eq)]
pub struct RevertItem {
    /// The opcode letter of the original record.
    pub op: char,
    /// Where the file was before the recorded action.
    pub from: String,
    /// Where the recorded action left it.
    pub to: String,
}

/// The view of one record to replay.
pub open spec fn item_view(it: RevertItem) -> (char, Seq<char>, Seq<char>) {
    (it.op, it.from@, it.to@)
}

/// The views of the records to replay.
pub open spec fn items_view(items: Seq<RevertItem>) -> Seq<(char, Seq<char>, Seq<char>)> {
    items.map_values(|it: RevertItem| item_view(it))
}

/// The numeric view of collected line numbers.
pub open spec fn linenos_view(v: Seq<usize>) -> Seq<int> {
    v.map_values(|u: usize| u as int)
}

/// What one reverse pass over a history file yields: the records to replay,
/// last line first, and the numbers of the lines that could not be used.
pub struct RevertPlan {
    /// The records to replay, in reverse chronological order.
    pub items: Vec<RevertItem>,
    /// The one-based numbers of the invalid lines, in the order the reverse
    /// pass met them (descending).
    pub invalid_linenos: Vec<usize>,
}

/// Plans the revert of a history file: walks the lines from the last to the
/// first, keeps every action record whose source and destination differ,
/// and collects the number of every line it cannot use. No invalid line
/// stops the pass; they are reported together at its end.
pub fn plan_revert(lines: &Vec<String>, case_insensitive: bool) -> (r: RevertPlan)
    ensures
        items_view(r.items@) == items_rec(lines_view(lines@), lines@.len() - 1, case_insensitive),
        linenos_view(r.invalid_linenos@) == invalids_rec(lines_view(lines@), lines@.len() - 1),
{
    let ghost lv = lines_view(lines@);
    let mut items: Vec<RevertItem> = Vec::new();
    let mut invalid_linenos: Vec<usize> = Vec::new();
    let mut i: usize = lines.len();
    proof {
        assert(items_view(items@) =~= Seq::<(char, Seq<char>, Seq<char>)>::empty());
        assert(linenos_view(invalid_linenos@) =~= Seq::<int>::empty());
    }
    while i > 0
        invariant
            lv == lines_view(lines@),
            i <= lines@.len(),
            items_view(items@) + items_rec(lv, i - 1, case_insensitive) == items_rec(
                lv,
                lines@.len() - 1,
                case_insensitive,
            ),
            linenos_view(invalid_linenos@) + invalids_rec(lv, i - 1) == invalids_rec(
                lv,
                lines@.len() - 1,
            ),
        decreases i,
    {
        i = i - 1;
        let ghost pre_items = items_view(items@);
        let ghost pre_invalid = linenos_view(invalid_linenos@);
        let line = &lines[i];
        proof {
            assert(lv[i as int] == lines@[i as int]@);
        }
        if line_is_ignorable(line.as_str()) {
            // comments and blank lines carry nothing to revert
        } else {
            match parse_history_line(line.as_str()) {
                None => {
                    invalid_linenos.push(i + 1);
                    proof {
                        assert(linenos_view(invalid_linenos@) =~= pre_invalid + seq![
                            i as int + 1,
                        ]);
                    }
                },
                Some((op, from, to)) => {
                    if !(op == 'd' || op == 's' || op == 'b' || op == 'o') {
                        invalid_linenos.push(i + 1);
                        proof {
                            assert(linenos_view(invalid_linenos@) =~= pre_invalid + seq![
                                i as int + 1,
                            ]);
                        }
                    } else {
                        let identical = if from == to {
                            true
                        } else if case_insensitive {
                            let lf = str_lower_full(from.as_str());
                            let lt = str_lower_full(to.as_str());
                            lf == lt
                        } else {
                            false
                        };
                        if !identical {
                            items.push(RevertItem { op, from, to });
                            proof {
                                let t = parse_line_spec(lv[i as int])->0;
                                assert(items_view(items@) =~= pre_items + seq![t]);
                            }
                        }
                    }
                },
            }
        }
        proof {
            lemma_plan_step(lv, i as int, case_insensitive, pre_items, pre_invalid, items_view(
                items@,
            ), linenos_view(invalid_linenos@));
        }
    }
    RevertPlan { items, invalid_linenos }
}

/// One step of the reverse pass keeps the plan invariant: what the step
/// appended is exactly what line `i` contributes.
proof fn lemma_plan_step(
    lines: Seq<Seq<char>>,
    i: int,
    ci: bool,
    pre_items: Seq<(char, Seq<char>, Seq<char>)>,
    pre_invalid: Seq<int>,
    post_items: Seq<(char, Seq<char>, Seq<char>)>,
    post_invalid: Seq<int>,
)
    requires
        0 <= i < lines.len(),
        ({
            let l = lines[i];
            if is_ignorable_line(l) {
                post_items == pre_items && post_invalid == pre_invalid
            } else {
                match parse_line_spec(l) {
                    None => post_items == pre_items && post_invalid == pre_invalid + seq![i + 1],
                    Some(t) => if !is_op_char(t.0) {
                        post_items == pre_items && post_invalid == pre_invalid + seq![i + 1]
                    } else if skip_identical(t.1, t.2, ci) {
                        post_items == pre_items && post_invalid == pre_invalid
                    } else {
                        post_items == pre_items + seq![t] && post_invalid == pre_invalid
                    },
                }
            }
        }),
    ensures
        pre_items + items_rec(lines, i, ci) == post_items + items_rec(lines, i - 1, ci),
        pre_invalid + invalids_rec(lines, i) == post_invalid + invalids_rec(lines, i - 1),
{
    let l = lines[i];
    if is_ignorable_line(l) {
    } else {
        match parse_line_spec(l) {
            None => {
                assert(pre_invalid + (seq![i + 1] + invalids_rec(lines, i - 1)) =~= (pre_invalid
                    + seq![i + 1]) + invalids_rec(lines, i - 1));
            },
            Some(t) => {
                if !is_op_char(t.0) {
                    assert(pre_invalid + (seq![i + 1] + invalids_rec(lines, i - 1)) =~= (
                    pre_invalid + seq![i + 1]) + invalids_rec(lines, i - 1));
                } else if skip_identical(t.1, t.2, ci) {
                } else {
                    assert(pre_items + (seq![t] + items_rec(lines, i - 1, ci)) =~= (pre_items
                        + seq![t]) + items_rec(lines, i - 1, ci));
                }
            },
        }
    }
}

// ---------------------------------------------------------------------------
// Replaying one record
// ---------------------------------------------------------------------------

/// What the replay does with one planned record, once the filesystem facts
/// are in.
#[derive(Clone, Copy, Debug, PartialEq, Eq)]
pub enum RevertAction {
    /// The recorded destination no longer exists: an inconsistency, raised
    /// through the blocking error interaction, then the pass moves on.
    MissingTarget,
    /// Reverting would collide with an existing file: run the conflict
    /// resolution protocol, with the same sticky semantics as the forward
    /// engine.
    Conflict,
    /// A skip record changed nothing, so nothing is reverted.
    NoOp,
    /// Rename the destination back to the source and record it.
    Rename,
}

/// The replay decision for one record.
pub open spec fn revert_action_spec(op: char, to_exists: bool, from_exists: bool) -> RevertAction {
    if !to_exists {
        RevertAction::MissingTarget
    } else if from_exists {
        RevertAction::Conflict
    } else if op == 's' {
        RevertAction::NoOp
    } else {
        RevertAction::Rename
    }
}

/// Decides one planned record from whether its destination and source
/// currently exist.
pub fn revert_step(op: char, to_exists: bool, from_exists: bool) -> (r: RevertAction)
    requires
        is_op_char(op),
    ensures
        r == revert_action_spec(op, to_exists, from_exists),
{
    if !to_exists {
        RevertAction::MissingTarget
    } else if from_exists {
        RevertAction::Conflict
    } else if op == 's' {
        RevertAction::NoOp
    } else {
        RevertAction::Rename
    }
}

// ---------------------------------------------------------------------------
// Round trip: a rename reverts to the original name
// ---------------------------------------------------------------------------

/// Round trip of one rename: the single record line the forward engine
/// writes for a rename `from -> to` plans exactly one replayed record, and
/// with the destination present and the source free the replay renames `to`
/// back to `from`. The destination must not itself contain the ` -> `
/// separator nor begin with `-> `, and must genuinely differ from the
/// source.
pub proof fn lemma_rename_round_trip(from: Seq<char>, to: Seq<char>, ci: bool)
    requires
        !contains_arrow(to),
        !(to.len() >= 3 && to[0] == '-' && to[1] == '>' && to[2] == ' '),
        !skip_identical(from, to, ci),
    ensures
        ({
            let log = seq![record_line_spec('d', from, to)];
            &&& items_rec(log, 0, ci) == seq![('d', from, to)]
            &&& invalids_rec(log, 0) == Seq::<int>::empty()
            &&& revert_action_spec('d', true, false) == RevertAction::Rename
        }),
{
    let line = record_line_spec('d', from, to);
    let log = seq![line];
    lemma_record_round_trip('d', from, to);
    assert(line[0] == '(');
    assert(!is_ignorable_line(line));
    assert(items_rec(log, -1, ci) =~= Seq::<(char, Seq<char>, Seq<char>)>::empty());
    assert(invalids_rec(log, -1) =~= Seq::<int>::empty());
    assert(seq![('d', from, to)] + items_rec(log, -1, ci) =~= seq![('d', from, to)]);
    assert(items_rec(log, 0, ci) =~= seq![('d', from, to)]);
    assert(invalids_rec(log, 0) =~= Seq::<int>::empty());
}

// ---------------------------------------------------------------------------
// Reporting the invalid lines
// ---------------------------------------------------------------------------

/// The decimal digits of `n`.
pub open spec fn dec_digits(n: nat) -> Seq<char>
    decreases n,
{
    if n < 10 {
        seq![(48 + n) as char]
    } else {
        dec_digits(n / 10).push((48 + n % 10) as char)
    }
}

/// Writes the decimal digits of `n` after `out`.
fn push_digits(n: usize, out: &mut Vec<char>)
    ensures
        final(out)@ == old(out)@ + dec_digits(n as nat),
    decreases n,
{
    if n < 10 {
        let d = ((48 + n as u32) as u8) as char;
        out.push(d);
        proof {
            assert(out@ =~= old(out)@ + dec_digits(n as nat));
        }
    } else {
        push_digits(n / 10, out);
        let d = ((48 + (n % 10) as u32) as u8) as char;
        out.push(d);
        proof {
            assert(out@ =~= old(out)@ + dec_digits(n as nat));
        }
    }
}

/// The decimal representation of `n`.
pub fn usize_to_string(n: usize) -> (r: String)
    ensures
        r@ == dec_digits(n as nat),
{
    let mut v: Vec<char> = Vec::new();
    push_digits(n, &mut v);
    proof {
        assert(v@ =~= dec_digits(n as nat));
    }
    crate::chars::chars_to_string(&v)
}

/// The bracketed, comma-separated decimal list of the numbers from `i` on.
pub open spec fn joined_numbers(ns: Seq<int>, i: int) -> Seq<char>
    decreases ns.len() - i,
{
    if i < 0 || i >= ns.len() {
        Seq::empty()
    } else if i + 1 == ns.len() {
        dec_digits(ns[i] as nat)
    } else {
        dec_digits(ns[i] as nat) + seq![',', ' '] + joined_numbers(ns, i + 1)
    }
}

/// The message the revert run fails with when lines could not be used:
/// nothing when every line was fine, the singular form for one bad line,
/// and the plural form, line numbers in ascending order, for several.
pub open spec fn revert_error_spec(invalid_desc: Seq<int>, path: Seq<char>) -> Option<Seq<char>> {
    if invalid_desc.len() == 0 {
        None
    } else if invalid_desc.len() == 1 {
        Some(
            "Ignored invalid line with line number "@ + dec_digits(invalid_desc[0] as nat)
                + ", in "@ + path + "."@,
        )
    } else {
        Some(
            "Ignored "@ + dec_digits(invalid_desc.len() as nat)
                + " invalid lines with line numbers ["@ + joined_numbers(
                invalid_desc.reverse(),
                0,
            ) + "], in "@ + path + "."@,
        )
    }
}

/// Builds the failure message of a revert run from the collected invalid
/// line numbers (descending, as the reverse pass met them) and the history
/// file's path; nothing when all lines were fine.
pub fn revert_error_message(invalid_linenos: &Vec<usize>, history_path: &str) -> (r: Option<
    String,
>)
    requires
        forall|j: int| 0 <= j < invalid_linenos@.len() ==> #[trigger] invalid_linenos@[j] >= 0,
    ensures
        (match r {
            Some(s) => Some(s@),
            None => None,
        }) == revert_error_spec(linenos_view(invalid_linenos@), history_path@),
{
    let n = invalid_linenos.len();
    if n == 0 {
        return None;
    }
    if n == 1 {
        let mut m = String::from_str("Ignored invalid line with line number ");
        let d = usize_to_string(invalid_linenos[0]);
        m.append(d.as_str());
        m.append(", in ");
        m.append(history_path);
        m.append(".");
        proof {
            assert(m@ =~= "Ignored invalid line with line number "@ + dec_digits(
                linenos_view(invalid_linenos@)[0] as nat,
            ) + ", in "@ + history_path@ + "."@);
        }
        return Some(m);
    }
    // ascending order for the report
    let ghost asc = linenos_view(invalid_linenos@).reverse();
    let mut m = String::from_str("Ignored ");
    let c = usize_to_string(n);
    m.append(c.as_str());
    m.append(" invalid lines with line numbers [");
    let ghost head = m@;
    let mut i: usize = 0;
    while i < n
        invariant
            n == invalid_linenos@.len(),
            asc == linenos_view(invalid_linenos@).reverse(),
            n >= 2,
            i <= n,
            head + joined_numbers(asc, 0) == m@ + joined_numbers(asc, i as int),
        decreases n - i,
    {
        let ghost pre = m@;
        let d = usize_to_string(invalid_linenos[n - 1 - i]);
        m.append(d.as_str());
        proof {
            assert(asc[i as int] == linenos_view(invalid_linenos@)[n - 1 - i]);
        }
        if i + 1 < n {
            m.append(", ");
            proof {
                reveal_strlit(", ");
                assert(m@ =~= pre + (dec_digits(asc[i as int] as nat) + seq![',', ' ']));
                assert(pre + (dec_digits(asc[i as int] as nat) + seq![',', ' ']) + joined_numbers(
                    asc,
                    i + 1,
                ) =~= pre + joined_numbers(asc, i as int));
            }
        } else {
            proof {
                assert(m@ =~= pre + dec_digits(asc[i as int] as nat));
                assert(joined_numbers(asc, i + 1) =~= Seq::<char>::empty());
                assert(pre + dec_digits(asc[i as int] as nat) + joined_numbers(asc, i + 1) =~= pre
                    + joined_numbers(asc, i as int));
            }
        }
        i = i + 1;
    }
    proof {
        assert(m@ =~= head + joined_numbers(asc, 0));
    }
    m.append("], in ");
    m.append(history_path);
    m.append(".");
    proof {
        assert(m@ =~= "Ignored "@ + dec_digits(n as nat) + " invalid lines with line numbers ["@
            + joined_numbers(asc, 0) + "], in "@ + history_path@ + "."@);
    }
    Some(m)
}

/// Parse tolerance: in a history file whose only unusable line is line
/// `k + 1`, the reverse pass plans every other line normally and the run
/// reports exactly that one line number at its end.
pub proof fn lemma_parse_tolerant(lines: Seq<Seq<char>>, k: int, path: Seq<char>)
    requires
        0 <= k < lines.len(),
        line_invalid_spec(lines[k]),
        forall|j: int| 0 <= j < lines.len() && j != k ==> !line_invalid_spec(#[trigger] lines[j]),
    ensures
        invalids_rec(lines, lines.len() - 1) == seq![k + 1],
        revert_error_spec(seq![k + 1], path) == Some(
            "Ignored invalid line with line number "@ + dec_digits((k + 1) as nat) + ", in "@
                + path + "."@,
        ),
{
    lemma_one_bad(lines, lines.len() - 1, k);
    assert(seq![k + 1][0] == k + 1);
}

/// Helper: the invalid lines among `lines[0..=i]` with exactly one bad line
/// at `k` are `[k + 1]` when `k <= i`, nothing otherwise.
proof fn lemma_one_bad(lines: Seq<Seq<char>>, i: int, k: int)
    requires
        0 <= k < lines.len(),
        i < lines.len(),
        line_invalid_spec(lines[k]),
        forall|j: int| 0 <= j < lines.len() && j != k ==> !line_invalid_spec(#[trigger] lines[j]),
    ensures
        k <= i ==> invalids_rec(lines, i) == seq![k + 1],
        k > i ==> invalids_rec(lines, i) == Seq::<int>::empty(),
    decreases i + 1,
{
    if i < 0 {
    } else {
        lemma_one_bad(lines, i - 1, k);
        if i == k {
            assert(invalids_rec(lines, i) =~= seq![k + 1] + Seq::<int>::empty());
            assert(seq![k + 1] + Seq::<int>::empty() =~= seq![k + 1]);
        }
    }
}

} // verus!
