//! Character- and string-level primitives.
//!
//! Everything ASCII is modelled and verified directly; what depends on the
//! Unicode tables (case mapping, classification, transliteration) is reached
//! through trusted wrappers whose results are named by uninterpreted spec
//! functions.

use vstd::prelude::*;
use vstd::string::StrSliceExecFns;

verus! {

// ---------------------------------------------------------------------------
// ASCII model (fully verified)
// ---------------------------------------------------------------------------

/// The character is in the ASCII range.
pub open spec fn ascii_char(c: char) -> bool {
    (c as int) < 128
}

/// Every character of the sequence is ASCII.
pub open spec fn seq_all_ascii(s: Seq<char>) -> bool {
    forall|i: int| 0 <= i < s.len() ==> ascii_char(#[trigger] s[i])
}

pub open spec fn ascii_is_upper(c: char) -> bool {
    65 <= (c as int) && (c as int) <= 90
}

pub open spec fn ascii_is_lower(c: char) -> bool {
    97 <= (c as int) && (c as int) <= 122
}

pub open spec fn ascii_is_digit(c: char) -> bool {
    48 <= (c as int) && (c as int) <= 57
}

pub open spec fn ascii_is_alnum(c: char) -> bool {
    ascii_is_digit(c) || ascii_is_upper(c) || ascii_is_lower(c)
}

pub open spec fn ascii_to_lower(c: char) -> char {
    if ascii_is_upper(c) {
        (c as int + 32) as char
    } else {
        c
    }
}

pub open spec fn ascii_to_upper(c: char) -> char {
    if ascii_is_lower(c) {
        (c as int - 32) as char
    } else {
        c
    }
}

// ---------------------------------------------------------------------------
// Names for the Unicode-dependent results, and the classification model
// ---------------------------------------------------------------------------

/// What `char::is_uppercase` returns.
pub uninterp spec fn unicode_is_upper(c: char) -> bool;

/// What `char::is_lowercase` returns.
pub uninterp spec fn unicode_is_lower(c: char) -> bool;

/// What `char::is_alphanumeric` returns.
pub uninterp spec fn unicode_is_alnum(c: char) -> bool;

/// What `char::to_lowercase` yields, as a sequence of characters.
pub uninterp spec fn lower_chars_of(c: char) -> Seq<char>;

/// What `char::to_uppercase` yields, as a sequence of characters.
pub uninterp spec fn upper_chars_of(c: char) -> Seq<char>;

/// What `str::to_lowercase` returns.
pub uninterp spec fn str_lower_of(s: Seq<char>) -> Seq<char>;

/// What `str::to_uppercase` returns.
pub uninterp spec fn str_upper_of(s: Seq<char>) -> Seq<char>;

/// What `unidecode::unidecode` returns on a string with at least one
/// non-ASCII character.
pub uninterp spec fn ascii_fold(s: Seq<char>) -> Seq<char>;

/// Uppercase, as the conversion pipeline sees it: the ASCII table where it
/// applies, the Unicode property elsewhere.
pub open spec fn char_is_upper(c: char) -> bool {
    if ascii_char(c) {
        ascii_is_upper(c)
    } else {
        unicode_is_upper(c)
    }
}

/// Lowercase, as the conversion pipeline sees it.
pub open spec fn char_is_lower(c: char) -> bool {
    if ascii_char(c) {
        ascii_is_lower(c)
    } else {
        unicode_is_lower(c)
    }
}

/// Alphanumeric, as the conversion pipeline sees it.
pub open spec fn char_is_alnum(c: char) -> bool {
    if ascii_char(c) {
        ascii_is_alnum(c)
    } else {
        unicode_is_alnum(c)
    }
}

/// The single-character lowercase image: the first character of the full
/// lowercase mapping.
pub open spec fn to_lower_char(c: char) -> char {
    if ascii_char(c) {
        ascii_to_lower(c)
    } else {
        lower_chars_of(c)[0]
    }
}

/// The single-character uppercase image: the first character of the full
/// uppercase mapping.
pub open spec fn to_upper_char(c: char) -> char {
    if ascii_char(c) {
        ascii_to_upper(c)
    } else {
        upper_chars_of(c)[0]
    }
}

/// The full uppercase mapping of one character (may be several characters).
pub open spec fn cap_chars(c: char) -> Seq<char> {
    if ascii_char(c) {
        seq![ascii_to_upper(c)]
    } else {
        upper_chars_of(c)
    }
}

/// String lowercasing as the pipeline sees it: the ASCII map where the whole
/// string is ASCII, `str::to_lowercase` elsewhere.
pub open spec fn str_lower_spec(s: Seq<char>) -> Seq<char> {
    if seq_all_ascii(s) {
        s.map_values(|c: char| ascii_to_lower(c))
    } else {
        str_lower_of(s)
    }
}

/// String uppercasing as the pipeline sees it.
pub open spec fn str_upper_spec(s: Seq<char>) -> Seq<char> {
    if seq_all_ascii(s) {
        s.map_values(|c: char| ascii_to_upper(c))
    } else {
        str_upper_of(s)
    }
}

/// ASCII transliteration as the pipeline sees it: the identity on ASCII
/// strings, `unidecode` elsewhere.
pub open spec fn fold_prepared(s: Seq<char>) -> Seq<char> {
    if seq_all_ascii(s) {
        s
    } else {
        ascii_fold(s)
    }
}

// ---------------------------------------------------------------------------
// Trusted wrappers around the Unicode-dependent calls
// ---------------------------------------------------------------------------

/// Relies on `char::is_uppercase`.
#[verifier::external_body]
pub(crate) fn unicode_is_upper_exec(c: char) -> (r: bool)
    ensures
        r == unicode_is_upper(c),
{
    c.is_uppercase()
}

/// Relies on `char::is_lowercase`.
#[verifier::external_body]
pub(crate) fn unicode_is_lower_exec(c: char) -> (r: bool)
    ensures
        r == unicode_is_lower(c),
{
    c.is_lowercase()
}

/// Relies on `char::is_alphanumeric`.
#[verifier::external_body]
pub(crate) fn unicode_is_alnum_exec(c: char) -> (r: bool)
    ensures
        r == unicode_is_alnum(c),
{
    c.is_alphanumeric()
}

/// Relies on `char::to_lowercase`: yields the lowercase mapping of the
/// character, which its documentation says is one or more characters.
#[verifier::external_body]
pub(crate) fn lower_chars_exec(c: char) -> (r: Vec<char>)
    ensures
        r@ == lower_chars_of(c),
        r@.len() >= 1,
{
    c.to_lowercase().collect()
}

/// Relies on `char::to_uppercase`: yields the uppercase mapping of the
/// character, which its documentation says is one or more characters.
#[verifier::external_body]
pub(crate) fn upper_chars_exec(c: char) -> (r: Vec<char>)
    ensures
        r@ == upper_chars_of(c),
        r@.len() >= 1,
{
    c.to_uppercase().collect()
}

/// Relies on `str::to_lowercase`.
#[verifier::external_body]
pub(crate) fn str_lower_exec(s: &str) -> (r: String)
    ensures
        r@ == str_lower_of(s@),
{
    s.to_lowercase()
}

/// Relies on `str::to_uppercase`.
#[verifier::external_body]
pub(crate) fn str_upper_exec(s: &str) -> (r: String)
    ensures
        r@ == str_upper_of(s@),
{
    s.to_uppercase()
}

/// Relies on `unidecode::unidecode`, whose documentation guarantees that the
/// result is pure ASCII and that every ASCII character is mapped to itself
/// (so an all-ASCII string comes back unchanged).
#[verifier::external_body]
pub(crate) fn unidecode_exec(s: &str) -> (r: String)
    ensures
        seq_all_ascii(s@) ==> r@ == s@,
        !seq_all_ascii(s@) ==> r@ == ascii_fold(s@),
        r@ == fold_prepared(s@),
        seq_all_ascii(r@),
{
    unidecode::unidecode(s)
}

/// Relies on `Iterator::collect` building a `String` out of the characters
/// in order.
#[verifier::external_body]
pub(crate) fn chars_to_string(v: &Vec<char>) -> (r: String)
    ensures
        r@ == v@,
{
    v.iter().collect()
}

// ---------------------------------------------------------------------------
// Verified executable primitives on top of the model
// ---------------------------------------------------------------------------

/// The characters of a string slice, in order.
pub fn str_chars(s: &str) -> (r: Vec<char>)
    ensures
        r@ == s@,
{
    let n = s.unicode_len();
    let mut v: Vec<char> = Vec::new();
    let mut i: usize = 0;
    while i < n
        invariant
            n == s@.len(),
            i <= n,
            v@ == s@.subrange(0, i as int),
        decreases n - i,
    {
        let c = s.get_char(i);
        v.push(c);
        i = i + 1;
        proof {
            assert(v@ =~= s@.subrange(0, i as int));
        }
    }
    proof {
        assert(v@ =~= s@);
    }
    v
}

pub(crate) fn char_is_upper_exec(c: char) -> (r: bool)
    ensures
        r == char_is_upper(c),
{
    if c <= '\x7f' {
        'A' <= c && c <= 'Z'
    } else {
        unicode_is_upper_exec(c)
    }
}

pub(crate) fn char_is_lower_exec(c: char) -> (r: bool)
    ensures
        r == char_is_lower(c),
{
    if c <= '\x7f' {
        'a' <= c && c <= 'z'
    } else {
        unicode_is_lower_exec(c)
    }
}

pub(crate) fn char_is_alnum_exec(c: char) -> (r: bool)
    ensures
        r == char_is_alnum(c),
{
    if c <= '\x7f' {
        ('0' <= c && c <= '9') || ('A' <= c && c <= 'Z') || ('a' <= c && c <= 'z')
    } else {
        unicode_is_alnum_exec(c)
    }
}

pub(crate) fn to_lower_char_exec(c: char) -> (r: char)
    ensures
        r == to_lower_char(c),
{
    if c <= '\x7f' {
        if 'A' <= c && c <= 'Z' {
            let u = c as u32;
            ((u + 32) as u8) as char
        } else {
            c
        }
    } else {
        let m = lower_chars_exec(c);
        m[0]
    }
}

pub(crate) fn to_upper_char_exec(c: char) -> (r: char)
    ensures
        r == to_upper_char(c),
{
    if c <= '\x7f' {
        if 'a' <= c && c <= 'z' {
            let u = c as u32;
            ((u - 32) as u8) as char
        } else {
            c
        }
    } else {
        let m = upper_chars_exec(c);
        m[0]
    }
}

/// Lowercases a whole string: the ASCII map where the string is all ASCII,
/// `str::to_lowercase` elsewhere.
pub fn str_lower_full(s: &str) -> (r: String)
    ensures
        r@ == str_lower_spec(s@),
{
    let cs = str_chars(s);
    if all_ascii_exec(&cs) {
        let mut out: Vec<char> = Vec::new();
        let mut i: usize = 0;
        while i < cs.len()
            invariant
                i <= cs@.len(),
                seq_all_ascii(cs@),
                out@ =~= cs@.subrange(0, i as int).map_values(|c: char| ascii_to_lower(c)),
            decreases cs@.len() - i,
        {
            proof {
                assert(ascii_char(cs@[i as int]));
            }
            let m = to_lower_char_exec(cs[i]);
            out.push(m);
            i = i + 1;
            proof {
                assert(out@ =~= cs@.subrange(0, i as int).map_values(
                    |c: char| ascii_to_lower(c),
                ));
            }
        }
        proof {
            assert(cs@.subrange(0, cs@.len() as int) =~= cs@);
        }
        chars_to_string(&out)
    } else {
        str_lower_exec(s)
    }
}

/// Whether every character of the vector is ASCII.
pub(crate) fn all_ascii_exec(v: &Vec<char>) -> (r: bool)
    ensures
        r == seq_all_ascii(v@),
{
    let mut i: usize = 0;
    while i < v.len()
        invariant
            i <= v@.len(),
            forall|j: int| 0 <= j < i ==> ascii_char(#[trigger] v@[j]),
        decreases v@.len() - i,
    {
        let c = v[i];
        if c > '\x7f' {
            proof {
                assert(!ascii_char(v@[i as int]));
            }
            return false;
        }
        i = i + 1;
    }
    true
}

} // verus!
