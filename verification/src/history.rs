//! The transaction-log line grammar: formatting of records, parsing of
//! history lines, and the in-memory log that a run accumulates.
//!
//! An action record reads `(<op>) <source> -> <dest>` with
//! `<op>` one of `d`, `s`, `b`, `o`; an error record reads
//! `(e) <path>: <message>`. Blank lines and lines starting with `//` are
//! ignored by writer and reader alike.

use vstd::prelude::*;
use vstd::string::StrSliceExecFns;
use vstd::string::StringExecFns;

use crate::chars::chars_to_string;
use crate::chars::str_chars;

verus! {

/// The opcode of an action record.
#[derive(Clone, Copy, Debug, PartialEq, Eq)]
pub enum Op {
    /// A rename was performed (`d`).
    Renamed,
    /// A conflict was skipped (`s`).
    Skipped,
    /// The existing file was backed up, then the rename performed (`b`).
    BackedUp,
    /// The existing file was overwritten (`o`).
    Overwritten,
}

/// The one-letter code of an opcode.
pub open spec fn op_char(op: Op) -> char {
    match op {
        Op::Renamed => 'd',
        Op::Skipped => 's',
        Op::BackedUp => 'b',
        Op::Overwritten => 'o',
    }
}

/// Whether `c` is a valid opcode letter of an action record.
pub open spec fn is_op_char(c: char) -> bool {
    c == 'd' || c == 's' || c == 'b' || c == 'o'
}

/// The ` -> ` separator between source and destination.
pub open spec fn arrow() -> Seq<char> {
    seq![' ', '-', '>', ' ']
}

/// An action record line, as it is written to the log.
pub open spec fn record_line_spec(opc: char, from: Seq<char>, to: Seq<char>) -> Seq<char> {
    seq!['(', opc, ')', ' '] + from + arrow() + to
}

/// An error record line, as it is written to the log.
pub open spec fn error_line_spec(path: Seq<char>, mess: Seq<char>) -> Seq<char> {
    seq!['(', 'e', ')', ' '] + path + seq![':', ' '] + mess
}

/// A line both writer and reader pass over: blank, or a `//` comment.
pub open spec fn is_ignorable_line(s: Seq<char>) -> bool {
    s.len() == 0 || (s.len() >= 2 && s[0] == '/' && s[1] == '/')
}

/// The ` -> ` separator stands at position `i` of `s`.
pub open spec fn arrow_at(s: Seq<char>, i: int) -> bool {
    0 <= i && i + 4 <= s.len() && s.subrange(i, i + 4) == arrow()
}

/// The ` -> ` separator stands somewhere in `s`.
pub open spec fn contains_arrow(s: Seq<char>) -> bool {
    exists|i: int| arrow_at(s, i)
}

/// The position of the last ` -> ` separator at or before position `i`.
pub open spec fn last_arrow(s: Seq<char>, i: int) -> Option<int>
    decreases i + 1,
{
    if i < 0 {
        None
    } else if arrow_at(s, i) {
        Some(i)
    } else {
        last_arrow(s, i - 1)
    }
}

/// What parsing one history line yields: the opcode letter, the source and
/// the destination, split at the last ` -> ` separator. Lines that do not
/// fit the record grammar yield nothing.
pub open spec fn parse_line_spec(s: Seq<char>) -> Option<(char, Seq<char>, Seq<char>)> {
    if s.len() >= 4 && s[0] == '(' && s[2] == ')' && s[3] == ' ' {
        let body = s.subrange(4, s.len() as int);
        match last_arrow(body, body.len() - 4) {
            Some(i) => Some((s[1], body.subrange(0, i), body.subrange(i + 4, body.len() as int))),
            None => None,
        }
    } else {
        None
    }
}

// ---------------------------------------------------------------------------
// Executable formatting and parsing
// ---------------------------------------------------------------------------

/// The one-letter code of an opcode.
pub fn op_code(op: &Op) -> (r: char)
    ensures
        r == op_char(*op),
{
    match op {
        Op::Renamed => 'd',
        Op::Skipped => 's',
        Op::BackedUp => 'b',
        Op::Overwritten => 'o',
    }
}

/// Whether the line is blank or a `//` comment.
pub fn line_is_ignorable(line: &str) -> (r: bool)
    ensures
        r == is_ignorable_line(line@),
{
    let n = line.unicode_len();
    if n == 0 {
        true
    } else if n >= 2 {
        line.get_char(0) == '/' && line.get_char(1) == '/'
    } else {
        false
    }
}

/// Formats an action record line.
pub fn format_record(op: &Op, from: &str, to: &str) -> (r: String)
    ensures
        r@ == record_line_spec(op_char(*op), from@, to@),
{
    let mut v: Vec<char> = Vec::new();
    v.push('(');
    v.push(op_code(op));
    v.push(')');
    v.push(' ');
    let mut f = str_chars(from);
    v.append(&mut f);
    v.push(' ');
    v.push('-');
    v.push('>');
    v.push(' ');
    let mut t = str_chars(to);
    v.append(&mut t);
    proof {
        assert(v@ =~= record_line_spec(op_char(*op), from@, to@));
    }
    chars_to_string(&v)
}

/// Formats an error record line.
pub fn format_error_record(path: &str, mess: &str) -> (r: String)
    ensures
        r@ == error_line_spec(path@, mess@),
{
    let mut v: Vec<char> = Vec::new();
    v.push('(');
    v.push('e');
    v.push(')');
    v.push(' ');
    let mut p = str_chars(path);
    v.append(&mut p);
    v.push(':');
    v.push(' ');
    let mut m = str_chars(mess);
    v.append(&mut m);
    proof {
        assert(v@ =~= error_line_spec(path@, mess@));
    }
    chars_to_string(&v)
}

/// The characters of `v` between positions `a` and `b`.
fn chars_sub(v: &Vec<char>, a: usize, b: usize) -> (r: Vec<char>)
    requires
        a <= b <= v@.len(),
    ensures
        r@ == v@.subrange(a as int, b as int),
{
    let mut r: Vec<char> = Vec::new();
    let mut i: usize = a;
    while i < b
        invariant
            a <= i <= b <= v@.len(),
            r@ == v@.subrange(a as int, i as int),
        decreases b - i,
    {
        r.push(v[i]);
        i = i + 1;
        proof {
            assert(r@ =~= v@.subrange(a as int, i as int));
        }
    }
    r
}

/// Parses one history line against the record grammar; yields the opcode
/// letter, the source and the destination, or nothing for a line that does
/// not fit.
pub fn parse_history_line(line: &str) -> (r: Option<(char, String, String)>)
    ensures
        parse_line_spec(line@) is None ==> r is None,
        parse_line_spec(line@) matches Some(t) ==> r matches Some(p) && p.0 == t.0 && p.1@ == t.1
            && p.2@ == t.2,
{
    let cs = str_chars(line);
    let n = cs.len();
    if n < 4 {
        return None;
    }
    if !(cs[0] == '(' && cs[2] == ')' && cs[3] == ' ') {
        return None;
    }
    let opc = cs[1];
    let body = chars_sub(&cs, 4, n);
    let bl = body.len();
    if bl < 4 {
        proof {
            assert(last_arrow(body@, bl - 4) is None);
        }
        return None;
    }
    // find the last ` -> ` in the body
    let mut best: Option<usize> = None;
    let mut p: usize = 0;
    while p <= bl - 4
        invariant
            4 <= bl == body@.len(),
            p <= bl,
            match best {
                Some(u) => last_arrow(body@, p - 1) == Some(u as int) && u + 4 <= bl,
                None => last_arrow(body@, p - 1) is None,
            },
        decreases bl - p,
    {
        if body[p] == ' ' && body[p + 1] == '-' && body[p + 2] == '>' && body[p + 3] == ' ' {
            proof {
                assert(body@.subrange(p as int, p as int + 4) =~= arrow());
                assert(arrow_at(body@, p as int));
            }
            best = Some(p);
        } else {
            proof {
                if arrow_at(body@, p as int) {
                    assert(body@.subrange(p as int, p as int + 4)[0] == body@[p as int]);
                    assert(body@.subrange(p as int, p as int + 4)[1] == body@[p as int + 1]);
                    assert(body@.subrange(p as int, p as int + 4)[2] == body@[p as int + 2]);
                    assert(body@.subrange(p as int, p as int + 4)[3] == body@[p as int + 3]);
                    assert(false);
                }
            }
        }
        p = p + 1;
    }
    proof {
        assert(p - 1 >= bl - 4);
        lemma_last_arrow_stable(body@, bl - 4, p - 1);
    }
    match best {
        Some(i) => {
            let from = chars_sub(&body, 0, i);
            let to = chars_sub(&body, i + 4, bl);
            Some((opc, chars_to_string(&from), chars_to_string(&to)))
        },
        None => None,
    }
}

/// `last_arrow` does not change when the scan starts past the last possible
/// window.
proof fn lemma_last_arrow_stable(s: Seq<char>, i: int, j: int)
    requires
        i <= j,
        i >= s.len() - 4,
    ensures
        last_arrow(s, j) == last_arrow(s, i),
    decreases j - i,
{
    if j > i {
        assert(!arrow_at(s, j));
        lemma_last_arrow_stable(s, i, j - 1);
    }
}

// ---------------------------------------------------------------------------
// Round trip: a formatted record parses back to itself
// ---------------------------------------------------------------------------

/// If the separator stands at `k` and nowhere later up to `i`, the backward
/// scan from `i` finds `k`.
proof fn lemma_last_arrow_finds(s: Seq<char>, k: int, i: int)
    requires
        0 <= k <= i,
        arrow_at(s, k),
        forall|p: int| k < p <= i ==> !arrow_at(s, p),
    ensures
        last_arrow(s, i) == Some(k),
    decreases i - k,
{
    if i > k {
        lemma_last_arrow_finds(s, k, i - 1);
    }
}

/// Round trip of the record grammar: a formatted action record parses back
/// to exactly its opcode, source and destination. The destination must not
/// itself contain the ` -> ` separator nor begin with `-> `, else the
/// parser would split at that later occurrence.
pub proof fn lemma_record_round_trip(opc: char, from: Seq<char>, to: Seq<char>)
    requires
        !contains_arrow(to),
        !(to.len() >= 3 && to[0] == '-' && to[1] == '>' && to[2] == ' '),
    ensures
        parse_line_spec(record_line_spec(opc, from, to)) == Some((opc, from, to)),
{
    let s = record_line_spec(opc, from, to);
    let k = from.len() as int;
    let body = s.subrange(4, s.len() as int);
    assert(body =~= from + arrow() + to);
    assert(body.subrange(k, k + 4) =~= arrow());
    assert(arrow_at(body, k));
    assert forall|p: int| k < p <= body.len() - 4 implies !arrow_at(body, p) by {
        if arrow_at(body, p) {
            assert(body.subrange(p, p + 4)[0] == body[p]);
            assert(body.subrange(p, p + 4)[1] == body[p + 1]);
            assert(body.subrange(p, p + 4)[2] == body[p + 2]);
            assert(body.subrange(p, p + 4)[3] == body[p + 3]);
            if p == k + 1 {
                assert(body[p] == '-');
                assert(false);
            } else if p == k + 2 {
                assert(body[p] == '>');
                assert(false);
            } else if p == k + 3 {
                assert(body[p + 1] == to[0] && body[p + 2] == to[1] && body[p + 3] == to[2]);
                assert(false);
            } else {
                assert(p >= k + 4);
                assert(body.subrange(p, p + 4) =~= to.subrange(p - k - 4, p - k));
                assert(arrow_at(to, p - k - 4));
                assert(false);
            }
        }
    }
    assert forall|p: int| k < p ==> !arrow_at(body, p) by {
        assert(forall|p: int| p > body.len() - 4 ==> !arrow_at(body, p));
    }
    lemma_last_arrow_finds(body, k, body.len() - 4);
    assert(body.subrange(0, k) =~= from);
    assert(body.subrange(k + 4, body.len() as int) =~= to);
}

// ---------------------------------------------------------------------------
// The in-memory transaction log of one run
// ---------------------------------------------------------------------------

/// The views of the accumulated lines.
pub open spec fn lines_view(lines: Seq<String>) -> Seq<Seq<char>> {
    lines.map_values(|l: String| l@)
}

/// The text of the log on disk: each line followed by a newline, in the
/// order the records were appended.
pub open spec fn log_text(lines: Seq<Seq<char>>, i: int) -> Seq<char>
    decreases lines.len() - i,
{
    if i < 0 || i >= lines.len() {
        Seq::empty()
    } else {
        lines[i] + seq!['\n'] + log_text(lines, i + 1)
    }
}

/// The append-only record of every decision one run takes. The lines stay
/// in append order; the run writes them out at its end, or removes the file
/// when nothing was recorded.
pub struct TransactionLog {
    /// The recorded lines, oldest first.
    pub lines: Vec<String>,
}

impl TransactionLog {
    /// An empty log.
    pub fn new() -> (r: TransactionLog)
        ensures
            r.lines@.len() == 0,
    {
        TransactionLog { lines: Vec::new() }
    }

    /// Appends one record line; nothing already recorded moves.
    pub fn append_record(&mut self, line: String)
        ensures
            final(self).lines@ == old(self).lines@.push(line),
    {
        self.lines.push(line);
    }

    /// The number of records taken so far.
    pub fn len(&self) -> (n: usize)
        ensures
            n == self.lines@.len(),
    {
        self.lines.len()
    }

    /// Whether the run has recorded nothing.
    pub fn is_empty(&self) -> (r: bool)
        ensures
            r == (self.lines@.len() == 0),
    {
        self.lines.len() == 0
    }

    /// The text to persist: nothing when no record was taken — the log file
    /// of an actionless run must not exist — and otherwise every line in
    /// append order, each followed by a newline.
    pub fn contents(&self) -> (r: Option<String>)
        ensures
            r is None <==> self.lines@.len() == 0,
            r matches Some(s) ==> s@ == log_text(lines_view(self.lines@), 0),
    {
        if self.lines.len() == 0 {
            return None;
        }
        let mut m = String::new();
        let mut i: usize = 0;
        while i < self.lines.len()
            invariant
                i <= self.lines@.len(),
                log_text(lines_view(self.lines@), 0) == m@ + log_text(
                    lines_view(self.lines@),
                    i as int,
                ),
            decreases self.lines@.len() - i,
        {
            let ghost pre = m@;
            m.append(self.lines[i].as_str());
            m.append("\n");
            proof {
                reveal_strlit("\n");
                assert("\n"@ =~= seq!['\n']);
                assert(lines_view(self.lines@)[i as int] == self.lines@[i as int]@);
                assert(m@ =~= pre + (lines_view(self.lines@)[i as int] + seq!['\n']));
                assert(pre + (lines_view(self.lines@)[i as int] + seq!['\n']) + log_text(
                    lines_view(self.lines@),
                    i + 1,
                ) =~= pre + log_text(lines_view(self.lines@), i as int));
            }
            i = i + 1;
        }
        proof {
            assert(m@ =~= m@ + log_text(lines_view(self.lines@), i as int));
        }
        Some(m)
    }
}

} // verus!
