//! Small helpers: newline trimming, timestamps, and backup-name synthesis.

use vstd::prelude::*;
use vstd::string::StrSliceExecFns;

use crate::chars::chars_to_string;
use crate::chars::seq_all_ascii;
use crate::chars::str_chars;

verus! {

/// `s` without one trailing newline, in a cross-platform way: a final
/// `"\n"` goes, and a `"\r"` right before it goes with it.
pub open spec fn trim_newline_spec(s: Seq<char>) -> Seq<char> {
    if s.len() > 0 && s[s.len() - 1] == '\n' {
        let t = s.drop_last();
        if t.len() > 0 && t[t.len() - 1] == '\r' {
            t.drop_last()
        } else {
            t
        }
    } else {
        s
    }
}

/// Removes the newline (in a cross-platform way) at the end of `s` if there
/// is one.
pub fn trim_newline(s: &mut String)
    ensures
        final(s)@ == trim_newline_spec(old(s)@),
{
    let cs = str_chars(s.as_str());
    let n = cs.len();
    if n > 0 && cs[n - 1] == '\n' {
        let end: usize = if n > 1 && cs[n - 2] == '\r' {
            n - 2
        } else {
            n - 1
        };
        let mut v: Vec<char> = Vec::new();
        let mut i: usize = 0;
        while i < end
            invariant
                end <= cs@.len(),
                i <= end,
                v@ == cs@.subrange(0, i as int),
            decreases end - i,
        {
            v.push(cs[i]);
            i = i + 1;
            proof {
                assert(v@ =~= cs@.subrange(0, i as int));
            }
        }
        proof {
            assert(v@ =~= trim_newline_spec(old(s)@));
        }
        *s = chars_to_string(&v);
    }
}

/// Relies on `chrono::Local::now` formatted as `%Y%m%d_%H%M%S%.9f`: a
/// timestamp precise to the nanosecond, at least 15 ASCII characters. The
/// value depends on the clock, so nothing more is promised of it.
#[verifier::external_body]
pub fn get_now_str() -> (r: String)
    ensures
        r@.len() >= 15,
        seq_all_ascii(r@),
{
    chrono::Local::now().format("%Y%m%d_%H%M%S%.9f").to_string()
}

/// The name a backed-up file gets: its stem, a `_backup_` tag with the
/// timestamp, and the original extension.
pub open spec fn backup_name_spec(stem: Seq<char>, ext: Option<Seq<char>>, now: Seq<char>) -> Seq<
    char,
> {
    let base = stem + "_backup_"@ + now;
    match ext {
        Some(e) => base + seq!['.'] + e,
        None => base,
    }
}

/// Synthesizes the backup filename for the file about to be displaced:
/// `<stem>_backup_<timestamp>`, the extension kept.
pub fn backup_file_name(stem: &str, ext: Option<&str>, now: &str) -> (r: String)
    ensures
        r@ == backup_name_spec(stem@, crate::default::opt_str_slice_view(ext), now@),
{
    let mut v = str_chars(stem);
    let mut tag = str_chars("_backup_");
    v.append(&mut tag);
    let mut ts = str_chars(now);
    v.append(&mut ts);
    match ext {
        Some(e) => {
            v.push('.');
            let mut tail = str_chars(e);
            v.append(&mut tail);
        },
        None => {},
    }
    proof {
        assert(v@ =~= backup_name_spec(stem@, crate::default::opt_str_slice_view(ext), now@));
    }
    chars_to_string(&v)
}

} // verus!
