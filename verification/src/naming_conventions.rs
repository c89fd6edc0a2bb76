//! Naming conventions and the corresponding filename converters.
//!
//! Each converter is specified by a recursive spec function over the
//! character sequence; the executable code walks the characters once and is
//! proved to produce exactly what the spec describes.

use vstd::prelude::*;
use vstd::string::StrSliceExecFns;

use crate::chars::ascii_char;
use crate::chars::cap_chars;
use crate::chars::char_is_alnum;
use crate::chars::char_is_lower;
use crate::chars::char_is_upper;
use crate::chars::fold_prepared;
use crate::chars::str_lower_spec;
use crate::chars::str_upper_spec;
use crate::chars::to_lower_char;
use crate::chars::to_upper_char;
use crate::chars::all_ascii_exec;
use crate::chars::char_is_alnum_exec;
use crate::chars::char_is_lower_exec;
use crate::chars::char_is_upper_exec;
use crate::chars::chars_to_string;
use crate::chars::str_chars;
use crate::chars::str_lower_exec;
use crate::chars::str_upper_exec;
use crate::chars::to_lower_char_exec;
use crate::chars::to_upper_char_exec;
use crate::chars::unidecode_exec;
use crate::chars::upper_chars_exec;

verus! {

/// The supported naming conventions a filename can be rewritten into.
#[derive(Clone, Copy, Debug, PartialEq, Eq)]
pub enum NamingConvention {
    /// The camelCase naming convention.
    CamelCase,
    /// The kebab-case naming convention.
    KebabCase,
    /// The snake_case naming convention.
    SnakeCase,
    /// The PascalCase naming convention.
    PascalCase,
    /// The lowercase naming convention.
    Lower,
    /// The UPPERCASE naming convention.
    Upper,
}

/// The characters that mark a break between words.
pub open spec fn is_sep(c: char) -> bool {
    c == '_' || c == '-' || c == '.' || c == ' ' || c == '\t' || c == '\r' || c == '\n'
}

/// A special character: neither a letter nor a digit (separators included).
pub open spec fn is_special_char(c: char) -> bool {
    !char_is_alnum(c)
}

/// One pass of the snake/kebab conversion, from position `i` on, carrying a
/// pending word boundary and the output built so far. A boundary is emitted
/// as `join`, only between emitted characters, so consecutive separators
/// collapse and leading or trailing separators vanish.
pub open spec fn sep_join_rec(
    s: Seq<char>,
    i: int,
    pending: bool,
    out: Seq<char>,
    join: char,
    kd: bool,
    ks: bool,
) -> Seq<char>
    decreases s.len() - i,
{
    if i < 0 || i >= s.len() {
        out
    } else {
        let c = s[i];
        if char_is_upper(c) {
            let boundary = pending || (i > 0 && char_is_lower(s[i - 1]));
            let out1 = if out.len() > 0 && boundary {
                out.push(join)
            } else {
                out
            };
            sep_join_rec(s, i + 1, false, out1.push(to_lower_char(c)), join, kd, ks)
        } else if is_sep(c) && !(kd && c == '.') {
            sep_join_rec(s, i + 1, true, out, join, kd, ks)
        } else if !ks && is_special_char(c) {
            sep_join_rec(s, i + 1, pending, out, join, kd, ks)
        } else {
            let out1 = if out.len() > 0 && pending {
                out.push(join)
            } else {
                out
            };
            sep_join_rec(s, i + 1, false, out1.push(to_lower_char(c)), join, kd, ks)
        }
    }
}

/// One pass of the camelCase conversion, from position `i` on, carrying the
/// capitalize-next-letter flag and the output built so far. A separator only
/// raises the flag, and the flag only capitalizes once something was already
/// emitted, so separator runs collapse to one boundary, leading and trailing
/// runs vanish, and the first word stays lowercase. An uppercase letter
/// right after a lowercase one is kept verbatim, which preserves
/// acronym-like runs.
pub open spec fn camel_rec(
    s: Seq<char>,
    i: int,
    should_upper: bool,
    out: Seq<char>,
    kd: bool,
    ks: bool,
) -> Seq<char>
    decreases s.len() - i,
{
    if i < 0 || i >= s.len() {
        out
    } else {
        let c = s[i];
        if is_sep(c) && !(kd && c == '.') {
            camel_rec(s, i + 1, true, out, kd, ks)
        } else if is_special_char(c) {
            if ks {
                camel_rec(s, i + 1, should_upper, out.push(c), kd, ks)
            } else {
                camel_rec(s, i + 1, should_upper, out, kd, ks)
            }
        } else if char_is_upper(c) && i > 0 && char_is_lower(s[i - 1]) {
            camel_rec(s, i + 1, should_upper, out.push(c), kd, ks)
        } else if should_upper && out.len() > 0 {
            camel_rec(s, i + 1, false, out.push(to_upper_char(c)), kd, ks)
        } else {
            camel_rec(s, i + 1, false, out.push(to_lower_char(c)), kd, ks)
        }
    }
}

/// The characters kept by the lower/UPPER conversions: separators stay
/// verbatim, special characters stay only when `ks` is set.
pub open spec fn filter_kept(s: Seq<char>, i: int, out: Seq<char>, ks: bool) -> Seq<char>
    decreases s.len() - i,
{
    if i < 0 || i >= s.len() {
        out
    } else {
        let c = s[i];
        if ks || is_sep(c) || !is_special_char(c) {
            filter_kept(s, i + 1, out.push(c), ks)
        } else {
            filter_kept(s, i + 1, out, ks)
        }
    }
}

/// The first character mapped to its full uppercase image, the rest kept.
pub open spec fn capitalize_spec(s: Seq<char>) -> Seq<char> {
    if s.len() == 0 {
        s
    } else {
        cap_chars(s[0]) + s.drop_first()
    }
}

/// The result of one convention on the prepared body, with the dotfile
/// prefix `pre` put back in front.
pub open spec fn nc_body(
    nc: NamingConvention,
    body: Seq<char>,
    pre: Seq<char>,
    kd: bool,
    ks: bool,
) -> Seq<char> {
    match nc {
        NamingConvention::SnakeCase => pre + sep_join_rec(
            body,
            0,
            false,
            Seq::empty(),
            '_',
            kd,
            ks,
        ),
        NamingConvention::KebabCase => pre + sep_join_rec(
            body,
            0,
            false,
            Seq::empty(),
            '-',
            kd,
            ks,
        ),
        NamingConvention::CamelCase => pre + camel_rec(body, 0, false, Seq::empty(), kd, ks),
        NamingConvention::PascalCase => capitalize_spec(
            pre + camel_rec(body, 0, false, Seq::empty(), kd, ks),
        ),
        NamingConvention::Lower => str_lower_spec(pre + filter_kept(body, 0, Seq::empty(), ks)),
        NamingConvention::Upper => str_upper_spec(pre + filter_kept(body, 0, Seq::empty(), ks)),
    }
}

/// What rewriting `s` under convention `nc` returns. A leading dot is kept
/// untouched; unless `ku` is set, the body is first transliterated to ASCII.
pub open spec fn apply_nc_spec(
    nc: NamingConvention,
    s: Seq<char>,
    kd: bool,
    ks: bool,
    ku: bool,
) -> Seq<char> {
    if s.len() == 0 {
        s
    } else {
        let dot = s[0] == '.';
        let body0 = if dot {
            s.drop_first()
        } else {
            s
        };
        let body = if ku {
            body0
        } else {
            fold_prepared(body0)
        };
        let pre: Seq<char> = if dot {
            seq!['.']
        } else {
            Seq::empty()
        };
        nc_body(nc, body, pre, kd, ks)
    }
}

// ---------------------------------------------------------------------------
// Executable code
// ---------------------------------------------------------------------------

/// Whether `c` is a separator character.
fn is_sep_exec(c: char) -> (r: bool)
    ensures
        r == is_sep(c),
{
    c == '_' || c == '-' || c == '.' || c == ' ' || c == '\t' || c == '\r' || c == '\n'
}

/// Returns whether `c` is a special character, i.e. not alphanumeric.
pub fn is_special(c: &char) -> (r: bool)
    ensures
        r == is_special_char(*c),
{
    !char_is_alnum_exec(*c)
}

/// Splits off a leading dot and transliterates the remainder to ASCII unless
/// `ku` is set; returns the dot flag and the prepared body characters.
fn prepare_body(s: &str, ku: bool) -> (r: (bool, Vec<char>))
    requires
        s@.len() > 0,
    ensures
        r.0 == (s@[0] == '.'),
        r.1@ == ({
            let body0 = if s@[0] == '.' {
                s@.drop_first()
            } else {
                s@
            };
            if ku {
                body0
            } else {
                fold_prepared(body0)
            }
        }),
{
    let n = s.unicode_len();
    let first = s.get_char(0);
    let dot = first == '.';
    let body_str: &str = if dot {
        let sub = s.substring_char(1, n);
        proof {
            assert(sub@ =~= s@.drop_first());
        }
        sub
    } else {
        s
    };
    if ku {
        (dot, str_chars(body_str))
    } else {
        let folded = unidecode_exec(body_str);
        let v = str_chars(folded.as_str());
        (dot, v)
    }
}

/// Puts the dotfile prefix back in front of the converted body and builds
/// the final string.
fn finish(dot: bool, out: Vec<char>) -> (r: String)
    ensures
        r@ == (if dot {
            seq!['.']
        } else {
            Seq::<char>::empty()
        }) + out@,
{
    let full = assemble(dot, out);
    chars_to_string(&full)
}

/// The shared snake/kebab walk over the prepared body.
fn sep_join_body(body: &Vec<char>, join: char, kd: bool, ks: bool) -> (out: Vec<char>)
    ensures
        out@ == sep_join_rec(body@, 0, false, Seq::empty(), join, kd, ks),
{
    let mut out: Vec<char> = Vec::new();
    let mut pending = false;
    let mut i: usize = 0;
    proof {
        assert(out@ =~= Seq::<char>::empty());
    }
    while i < body.len()
        invariant
            i <= body@.len(),
            sep_join_rec(body@, i as int, pending, out@, join, kd, ks) == sep_join_rec(
                body@,
                0,
                false,
                Seq::empty(),
                join,
                kd,
                ks,
            ),
        decreases body@.len() - i,
    {
        let ghost pre_i = i as int;
        let ghost pre_pending = pending;
        let ghost pre_out = out@;
        let c = body[i];
        if char_is_upper_exec(c) {
            let boundary = pending || (i > 0 && char_is_lower_exec(body[i - 1]));
            if out.len() > 0 && boundary {
                out.push(join);
            }
            out.push(to_lower_char_exec(c));
            pending = false;
        } else if is_sep_exec(c) && !(kd && c == '.') {
            pending = true;
        } else if !ks && is_special(&c) {
            // dropped silently
        } else {
            if out.len() > 0 && pending {
                out.push(join);
            }
            out.push(to_lower_char_exec(c));
            pending = false;
        }
        i = i + 1;
        proof {
            assert(sep_join_rec(body@, pre_i, pre_pending, pre_out, join, kd, ks)
                == sep_join_rec(body@, i as int, pending, out@, join, kd, ks));
        }
    }
    out
}

/// The camelCase walk over the prepared body.
fn camel_body(body: &Vec<char>, kd: bool, ks: bool) -> (out: Vec<char>)
    ensures
        out@ == camel_rec(body@, 0, false, Seq::empty(), kd, ks),
{
    let mut out: Vec<char> = Vec::new();
    let mut should_upper = false;
    let mut i: usize = 0;
    proof {
        assert(out@ =~= Seq::<char>::empty());
    }
    while i < body.len()
        invariant
            i <= body@.len(),
            camel_rec(body@, i as int, should_upper, out@, kd, ks) == camel_rec(
                body@,
                0,
                false,
                Seq::empty(),
                kd,
                ks,
            ),
        decreases body@.len() - i,
    {
        let ghost pre_i = i as int;
        let ghost pre_su = should_upper;
        let ghost pre_out = out@;
        let c = body[i];
        if is_sep_exec(c) && !(kd && c == '.') {
            should_upper = true;
        } else if is_special(&c) {
            if ks {
                out.push(c);
            }
        } else if char_is_upper_exec(c) && i > 0 && char_is_lower_exec(body[i - 1]) {
            out.push(c);
        } else if should_upper && out.len() > 0 {
            out.push(to_upper_char_exec(c));
            should_upper = false;
        } else {
            out.push(to_lower_char_exec(c));
            should_upper = false;
        }
        i = i + 1;
        proof {
            assert(camel_rec(body@, pre_i, pre_su, pre_out, kd, ks)
                == camel_rec(body@, i as int, should_upper, out@, kd, ks));
        }
    }
    out
}

/// The lower/UPPER filter walk over the prepared body.
fn filter_kept_body(body: &Vec<char>, ks: bool) -> (out: Vec<char>)
    ensures
        out@ == filter_kept(body@, 0, Seq::empty(), ks),
{
    let mut out: Vec<char> = Vec::new();
    let mut i: usize = 0;
    proof {
        assert(out@ =~= Seq::<char>::empty());
    }
    while i < body.len()
        invariant
            i <= body@.len(),
            filter_kept(body@, i as int, out@, ks) == filter_kept(body@, 0, Seq::empty(), ks),
        decreases body@.len() - i,
    {
        let ghost pre_i = i as int;
        let ghost pre_out = out@;
        let c = body[i];
        if ks || is_sep_exec(c) || !is_special(&c) {
            out.push(c);
        }
        i = i + 1;
        proof {
            assert(filter_kept(body@, pre_i, pre_out, ks) == filter_kept(
                body@,
                i as int,
                out@,
                ks,
            ));
        }
    }
    out
}

/// Maps every character of an all-ASCII vector through its ASCII lowercase
/// (`up` false) or uppercase (`up` true) image.
fn ascii_map_case(v: &Vec<char>, up: bool) -> (out: Vec<char>)
    requires
        crate::chars::seq_all_ascii(v@),
    ensures
        !up ==> out@ == v@.map_values(|c: char| crate::chars::ascii_to_lower(c)),
        up ==> out@ == v@.map_values(|c: char| crate::chars::ascii_to_upper(c)),
{
    let mut out: Vec<char> = Vec::new();
    let mut i: usize = 0;
    while i < v.len()
        invariant
            i <= v@.len(),
            crate::chars::seq_all_ascii(v@),
            !up ==> out@ =~= v@.subrange(0, i as int).map_values(
                |c: char| crate::chars::ascii_to_lower(c),
            ),
            up ==> out@ =~= v@.subrange(0, i as int).map_values(
                |c: char| crate::chars::ascii_to_upper(c),
            ),
        decreases v@.len() - i,
    {
        let c = v[i];
        proof {
            assert(ascii_char(v@[i as int]));
        }
        let m = if up {
            to_upper_char_exec(c)
        } else {
            to_lower_char_exec(c)
        };
        out.push(m);
        i = i + 1;
        proof {
            if !up {
                assert(out@ =~= v@.subrange(0, i as int).map_values(
                    |c: char| crate::chars::ascii_to_lower(c),
                ));
            } else {
                assert(out@ =~= v@.subrange(0, i as int).map_values(
                    |c: char| crate::chars::ascii_to_upper(c),
                ));
            }
        }
    }
    proof {
        assert(v@.subrange(0, v@.len() as int) =~= v@);
    }
    out
}

/// The shared tail of the lower/UPPER conversions: filters, reassembles and
/// maps the case over the whole string.
fn flat_case(s: &str, up: bool, ks: bool, ku: bool) -> (r: String)
    requires
        s@.len() > 0,
    ensures
        !up ==> r@ == apply_nc_spec(NamingConvention::Lower, s@, false, ks, ku),
        up ==> r@ == apply_nc_spec(NamingConvention::Upper, s@, false, ks, ku),
        !up ==> forall|kd: bool|
            r@ == #[trigger] apply_nc_spec(NamingConvention::Lower, s@, kd, ks, ku),
        up ==> forall|kd: bool|
            r@ == #[trigger] apply_nc_spec(NamingConvention::Upper, s@, kd, ks, ku),
{
    let (dot, body) = prepare_body(s, ku);
    let filtered = filter_kept_body(&body, ks);
    let full = assemble(dot, filtered);
    if all_ascii_exec(&full) {
        let mapped = ascii_map_case(&full, up);
        chars_to_string(&mapped)
    } else {
        let joined = chars_to_string(&full);
        if up {
            str_upper_exec(joined.as_str())
        } else {
            str_lower_exec(joined.as_str())
        }
    }
}

/// Prepends the dotfile prefix to the converted body characters.
fn assemble(dot: bool, out: Vec<char>) -> (r: Vec<char>)
    ensures
        r@ == (if dot {
            seq!['.']
        } else {
            Seq::<char>::empty()
        }) + out@,
{
    let mut full: Vec<char> = Vec::new();
    if dot {
        full.push('.');
    }
    let mut rest = out;
    let ghost rest0 = rest@;
    full.append(&mut rest);
    proof {
        if dot {
            assert(full@ =~= seq!['.'] + rest0);
        } else {
            assert(full@ =~= Seq::<char>::empty() + rest0);
        }
    }
    full
}

/// Rewrites `s` into camelCase.
pub fn camel_case(s: &str, keep_dots: bool, keep_special_chars: bool, keep_unicode: bool) -> (r:
    String)
    ensures
        r@ == apply_nc_spec(
            NamingConvention::CamelCase,
            s@,
            keep_dots,
            keep_special_chars,
            keep_unicode,
        ),
{
    let n = s.unicode_len();
    if n == 0 {
        return String::new();
    }
    let (dot, body) = prepare_body(s, keep_unicode);
    let out = camel_body(&body, keep_dots, keep_special_chars);
    finish(dot, out)
}

/// Rewrites `s` into kebab-case.
pub fn kebab_case(s: &str, keep_dots: bool, keep_special_chars: bool, keep_unicode: bool) -> (r:
    String)
    ensures
        r@ == apply_nc_spec(
            NamingConvention::KebabCase,
            s@,
            keep_dots,
            keep_special_chars,
            keep_unicode,
        ),
{
    let n = s.unicode_len();
    if n == 0 {
        return String::new();
    }
    let (dot, body) = prepare_body(s, keep_unicode);
    let out = sep_join_body(&body, '-', keep_dots, keep_special_chars);
    finish(dot, out)
}

/// Rewrites `s` into snake_case.
pub fn snake_case(s: &str, keep_dots: bool, keep_special_chars: bool, keep_unicode: bool) -> (r:
    String)
    ensures
        r@ == apply_nc_spec(
            NamingConvention::SnakeCase,
            s@,
            keep_dots,
            keep_special_chars,
            keep_unicode,
        ),
{
    let n = s.unicode_len();
    if n == 0 {
        return String::new();
    }
    let (dot, body) = prepare_body(s, keep_unicode);
    let out = sep_join_body(&body, '_', keep_dots, keep_special_chars);
    finish(dot, out)
}

/// Capitalizes the first character of `s` (its full uppercase image).
pub fn capitalize(s: &str) -> (r: String)
    ensures
        r@ == capitalize_spec(s@),
{
    let n = s.unicode_len();
    if n == 0 {
        return String::new();
    }
    let c0 = s.get_char(0);
    let mut full: Vec<char> = Vec::new();
    if c0 <= '\x7f' {
        full.push(to_upper_char_exec(c0));
        proof {
            assert(full@ =~= cap_chars(s@[0]));
        }
    } else {
        full = upper_chars_exec(c0);
    }
    let mut i: usize = 1;
    while i < n
        invariant
            1 <= i <= n,
            n == s@.len(),
            full@ == cap_chars(s@[0]) + s@.subrange(1, i as int),
        decreases n - i,
    {
        full.push(s.get_char(i));
        i = i + 1;
        proof {
            assert(full@ =~= cap_chars(s@[0]) + s@.subrange(1, i as int));
        }
    }
    proof {
        assert(s@.subrange(1, n as int) =~= s@.drop_first());
    }
    chars_to_string(&full)
}

/// Rewrites `s` into PascalCase: camelCase with the first letter capitalized.
pub fn pascal_case(s: &str, keep_dots: bool, keep_special_chars: bool, keep_unicode: bool) -> (r:
    String)
    ensures
        r@ == apply_nc_spec(
            NamingConvention::PascalCase,
            s@,
            keep_dots,
            keep_special_chars,
            keep_unicode,
        ),
{
    let c = camel_case(s, keep_dots, keep_special_chars, keep_unicode);
    capitalize(c.as_str())
}

/// Rewrites `s` into all-lowercase, keeping separators as they are.
pub fn lower(s: &str, keep_dots: bool, keep_special_chars: bool, keep_unicode: bool) -> (r:
    String)
    ensures
        r@ == apply_nc_spec(
            NamingConvention::Lower,
            s@,
            keep_dots,
            keep_special_chars,
            keep_unicode,
        ),
{
    let n = s.unicode_len();
    if n == 0 {
        return String::new();
    }
    flat_case(s, false, keep_special_chars, keep_unicode)
}

/// Rewrites `s` into all-UPPERCASE, keeping separators as they are.
pub fn upper(s: &str, keep_dots: bool, keep_special_chars: bool, keep_unicode: bool) -> (r:
    String)
    ensures
        r@ == apply_nc_spec(
            NamingConvention::Upper,
            s@,
            keep_dots,
            keep_special_chars,
            keep_unicode,
        ),
{
    let n = s.unicode_len();
    if n == 0 {
        return String::new();
    }
    flat_case(s, true, keep_special_chars, keep_unicode)
}

/// Rewrites `filename` according to the naming convention `nc`.
///
/// `keep_dots` keeps dots as ordinary characters instead of separators;
/// `keep_special_chars` keeps the characters that are neither alphanumeric
/// nor separators; `keep_unicode` skips the ASCII transliteration.
pub fn apply_nc(
    nc: &NamingConvention,
    filename: &str,
    keep_dots: bool,
    keep_special_chars: bool,
    keep_unicode: bool,
) -> (r: String)
    ensures
        r@ == apply_nc_spec(*nc, filename@, keep_dots, keep_special_chars, keep_unicode),
{
    match nc {
        NamingConvention::CamelCase => camel_case(
            filename,
            keep_dots,
            keep_special_chars,
            keep_unicode,
        ),
        NamingConvention::KebabCase => kebab_case(
            filename,
            keep_dots,
            keep_special_chars,
            keep_unicode,
        ),
        NamingConvention::SnakeCase => snake_case(
            filename,
            keep_dots,
            keep_special_chars,
            keep_unicode,
        ),
        NamingConvention::PascalCase => pascal_case(
            filename,
            keep_dots,
            keep_special_chars,
            keep_unicode,
        ),
        NamingConvention::Lower => lower(filename, keep_dots, keep_special_chars, keep_unicode),
        NamingConvention::Upper => upper(filename, keep_dots, keep_special_chars, keep_unicode),
    }
}

} // verus!
