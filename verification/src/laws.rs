//! Idempotence of the naming conventions: applying a convention to a name
//! it has already produced changes nothing.
//!
//! The statements are over ASCII names. With the transliteration on (the
//! default), every converted name is ASCII, so a second run over a
//! converted name falls under these laws; what a second conversion does to
//! a kept non-ASCII name depends on the Unicode tables and is not stated
//! here.

use vstd::prelude::*;

use crate::chars::ascii_char;
use crate::chars::ascii_to_lower;
use crate::chars::ascii_to_upper;
use crate::chars::seq_all_ascii;
use crate::chars::str_lower_spec;
use crate::chars::str_upper_spec;
use crate::naming_conventions::apply_nc_spec;
use crate::naming_conventions::filter_kept;
use crate::naming_conventions::is_sep;
use crate::naming_conventions::is_special_char;
use crate::naming_conventions::NamingConvention;

verus! {

/// Whether the lower/UPPER filter keeps the character.
pub open spec fn kept(c: char, ks: bool) -> bool {
    ks || is_sep(c) || !is_special_char(c)
}

/// The filter's accumulator only collects what the walk appends.
proof fn lemma_filter_acc(s: Seq<char>, i: int, out: Seq<char>, ks: bool)
    ensures
        filter_kept(s, i, out, ks) == out + filter_kept(s, i, Seq::empty(), ks),
    decreases s.len() - i,
{
    if i < 0 || i >= s.len() {
        assert(out + Seq::<char>::empty() =~= out);
    } else {
        if kept(s[i], ks) {
            lemma_filter_acc(s, i + 1, out.push(s[i]), ks);
            lemma_filter_acc(s, i + 1, Seq::empty().push(s[i]), ks);
            assert(out.push(s[i]) =~= out + Seq::<char>::empty().push(s[i]));
            assert(out + (Seq::<char>::empty().push(s[i]) + filter_kept(
                s,
                i + 1,
                Seq::empty(),
                ks,
            )) =~= (out + Seq::<char>::empty().push(s[i])) + filter_kept(
                s,
                i + 1,
                Seq::empty(),
                ks,
            ));
        } else {
            lemma_filter_acc(s, i + 1, out, ks);
        }
    }
}

/// Every character the filter keeps was kept on purpose: the filtered
/// sequence is all ASCII when the input is, and all its characters pass the
/// filter.
proof fn lemma_filter_chars(s: Seq<char>, i: int, ks: bool)
    requires
        0 <= i <= s.len(),
    ensures
        seq_all_ascii(s) ==> seq_all_ascii(filter_kept(s, i, Seq::empty(), ks)),
        forall|j: int|
            0 <= j < filter_kept(s, i, Seq::empty(), ks).len() ==> kept(
                #[trigger] filter_kept(s, i, Seq::empty(), ks)[j],
                ks,
            ),
    decreases s.len() - i,
{
    if i < s.len() {
        lemma_filter_chars(s, i + 1, ks);
        if kept(s[i], ks) {
            lemma_filter_acc(s, i + 1, Seq::empty().push(s[i]), ks);
            assert(filter_kept(s, i, Seq::empty(), ks) =~= seq![s[i]] + filter_kept(
                s,
                i + 1,
                Seq::empty(),
                ks,
            ));
        }
    }
}

/// A sequence the filter keeps whole comes back unchanged.
proof fn lemma_filter_of_kept(t: Seq<char>, i: int, ks: bool)
    requires
        0 <= i <= t.len(),
        forall|j: int| 0 <= j < t.len() ==> kept(#[trigger] t[j], ks),
    ensures
        filter_kept(t, i, Seq::empty(), ks) == t.skip(i),
    decreases t.len() - i,
{
    if i >= t.len() {
        assert(filter_kept(t, i, Seq::empty(), ks) =~= t.skip(i));
    } else {
        lemma_filter_of_kept(t, i + 1, ks);
        lemma_filter_acc(t, i + 1, Seq::empty().push(t[i]), ks);
        assert(filter_kept(t, i, Seq::empty(), ks) =~= seq![t[i]] + t.skip(i + 1));
        assert(seq![t[i]] + t.skip(i + 1) =~= t.skip(i));
    }
}

/// The ASCII case maps leave separator and special status alone.
proof fn lemma_case_keeps_kept(c: char, ks: bool)
    requires
        ascii_char(c),
    ensures
        kept(ascii_to_lower(c), ks) == kept(c, ks),
        kept(ascii_to_upper(c), ks) == kept(c, ks),
        ascii_char(ascii_to_lower(c)),
        ascii_char(ascii_to_upper(c)),
        ascii_to_lower(ascii_to_lower(c)) == ascii_to_lower(c),
        ascii_to_upper(ascii_to_upper(c)) == ascii_to_upper(c),
{
}

/// The ASCII case map of one of the two directions.
pub open spec fn case_map(c: char, up: bool) -> char {
    if up {
        ascii_to_upper(c)
    } else {
        ascii_to_lower(c)
    }
}

/// The mapped image of an all-ASCII, all-kept sequence: still all ASCII and
/// all kept, and mapping it again changes nothing.
proof fn lemma_map_case(t: Seq<char>, up: bool)
    requires
        seq_all_ascii(t),
    ensures
        ({
            let m = if up {
                t.map_values(|c: char| ascii_to_upper(c))
            } else {
                t.map_values(|c: char| ascii_to_lower(c))
            };
            &&& m.len() == t.len()
            &&& seq_all_ascii(m)
            &&& forall|j: int| 0 <= j < m.len() ==> #[trigger] m[j] == case_map(t[j], up)
        }),
{
    let m = if up {
        t.map_values(|c: char| ascii_to_upper(c))
    } else {
        t.map_values(|c: char| ascii_to_lower(c))
    };
    assert forall|j: int| 0 <= j < m.len() implies #[trigger] m[j] == case_map(t[j], up) by {
        assert(ascii_char(t[j]));
    }
    assert forall|j: int| 0 <= j < m.len() implies ascii_char(#[trigger] m[j]) by {
        assert(ascii_char(t[j]));
        lemma_case_keeps_kept(t[j], false);
    }
}

/// The fixed-point shape of the lower/UPPER conventions: a name of the form
/// `pre + case_map(filtered)` — exactly what they produce — converts to
/// itself.
proof fn lemma_flat_fixed(body: Seq<char>, dot: bool, up: bool, kd: bool, ks: bool, ku: bool)
    requires
        seq_all_ascii(body),
        forall|j: int| 0 <= j < body.len() ==> kept(#[trigger] body[j], ks),
    ensures
        ({
            let pre: Seq<char> = if dot {
                seq!['.']
            } else {
                Seq::empty()
            };
            let full = pre + body;
            let r = if up {
                str_upper_spec(full)
            } else {
                str_lower_spec(full)
            };
            apply_nc_spec(
                if up {
                    NamingConvention::Upper
                } else {
                    NamingConvention::Lower
                },
                r,
                kd,
                ks,
                ku,
            ) == r
        }),
{
    let pre: Seq<char> = if dot {
        seq!['.']
    } else {
        Seq::empty()
    };
    let full = pre + body;
    assert(seq_all_ascii(full)) by {
        assert(forall|j: int|
            0 <= j < full.len() ==> ascii_char(#[trigger] full[j]) == ascii_char(
                if dot {
                    (seq!['.'] + body)[j]
                } else {
                    body[j]
                },
            ));
        if dot {
            assert(forall|j: int|
                1 <= j < full.len() ==> #[trigger] full[j] == body[j - 1]);
            assert(full[0] == '.');
        } else {
            assert(full =~= body);
        }
    }
    let r = if up {
        str_upper_spec(full)
    } else {
        str_lower_spec(full)
    };
    lemma_map_case(full, up);
    assert(r.len() == full.len());
    assert(forall|j: int| 0 <= j < r.len() ==> #[trigger] r[j] == case_map(full[j], up));
    assert(seq_all_ascii(r)) by {
        assert forall|j: int| 0 <= j < r.len() implies ascii_char(#[trigger] r[j]) by {
            assert(ascii_char(full[j]));
            lemma_case_keeps_kept(full[j], ks);
        }
    }
    if r.len() == 0 {
        // an empty name converts to itself by definition
    } else {
        // the second pass sees the same dotfile split: the case maps fix '.'
        let dot2 = r[0] == '.';
        let body2 = if dot2 {
            r.drop_first()
        } else {
            r
        };
        let pre2: Seq<char> = if dot2 {
            seq!['.']
        } else {
            Seq::empty()
        };
        assert(seq_all_ascii(body2)) by {
            assert(forall|j: int|
                0 <= j < body2.len() ==> #[trigger] body2[j] == r[if dot2 {
                    j + 1
                } else {
                    j
                }]);
        }
        // body2 is all kept: its characters are case images of kept characters
        assert forall|j: int| 0 <= j < body2.len() implies kept(#[trigger] body2[j], ks) by {
            let k = if dot2 {
                j + 1
            } else {
                j
            };
            assert(body2[j] == r[k]);
            assert(r[k] == case_map(full[k], up));
            if k == 0 && dot {
                assert(full[0] == '.');
            } else {
                assert(full[k] == body[k - pre.len()]);
                assert(kept(body[k - pre.len()], ks));
            }
            lemma_case_keeps_kept(full[k], ks);
        }
        assert(fold_is_identity(body2)) by {
            assert(seq_all_ascii(body2));
        }
        lemma_filter_of_kept(body2, 0, ks);
        assert(body2.skip(0) =~= body2);
        let full2 = pre2 + body2;
        lemma_map_case(full2, up);
        assert(seq_all_ascii(full2)) by {
            assert forall|j: int| 0 <= j < full2.len() implies ascii_char(#[trigger] full2[j]) by {
                if dot2 && j == 0 {
                } else {
                    assert(full2[j] == body2[j - pre2.len()]);
                }
            }
        }
        let r2 = if up {
            str_upper_spec(full2)
        } else {
            str_lower_spec(full2)
        };
        // r2 and r agree position by position: the case maps are idempotent
        assert(full2 =~= r) by {
            assert(full2.len() == r.len());
            assert forall|j: int| 0 <= j < full2.len() implies #[trigger] full2[j] == r[j] by {
                if dot2 && j == 0 {
                } else {
                    assert(full2[j] == body2[j - pre2.len()]);
                }
            }
        }
        assert(r2 =~= r) by {
            assert(r2.len() == r.len());
            assert forall|j: int| 0 <= j < r2.len() implies #[trigger] r2[j] == r[j] by {
                assert(r2[j] == case_map(full2[j], up));
                assert(full2[j] == r[j]);
                assert(r[j] == case_map(full[j], up));
                assert(ascii_char(full[j]));
                lemma_case_keeps_kept(full[j], ks);
            }
        }
    }
}

/// Convenience: the conversion pipeline leaves an all-ASCII body alone
/// before converting.
pub open spec fn fold_is_identity(s: Seq<char>) -> bool {
    crate::chars::fold_prepared(s) == s
}

/// Idempotence of the lowercase and UPPERCASE conventions: converting an
/// ASCII name twice gives what converting it once gives.
pub proof fn lemma_flat_idempotent(s: Seq<char>, up: bool, kd: bool, ks: bool, ku: bool)
    requires
        seq_all_ascii(s),
    ensures
        ({
            let nc = if up {
                NamingConvention::Upper
            } else {
                NamingConvention::Lower
            };
            apply_nc_spec(nc, apply_nc_spec(nc, s, kd, ks, ku), kd, ks, ku) == apply_nc_spec(
                nc,
                s,
                kd,
                ks,
                ku,
            )
        }),
{
    let nc = if up {
        NamingConvention::Upper
    } else {
        NamingConvention::Lower
    };
    if s.len() == 0 {
    } else {
        let dot = s[0] == '.';
        let body0 = if dot {
            s.drop_first()
        } else {
            s
        };
        assert(seq_all_ascii(body0)) by {
            assert(forall|j: int|
                0 <= j < body0.len() ==> #[trigger] body0[j] == s[if dot {
                    j + 1
                } else {
                    j
                }]);
        }
        assert(fold_is_identity(body0));
        let body = if ku {
            body0
        } else {
            crate::chars::fold_prepared(body0)
        };
        assert(body == body0);
        let f = filter_kept(body, 0, Seq::empty(), ks);
        lemma_filter_chars(body, 0, ks);
        lemma_flat_fixed(f, dot, up, kd, ks, ku);
    }
}

// ---------------------------------------------------------------------------
// snake_case / kebab-case
// ---------------------------------------------------------------------------

/// A character the snake/kebab walk emits as part of a word: ASCII, already
/// its own lowercase image (so in particular not uppercase), not a
/// separator in this mode, and kept by the special-character rule.
pub open spec fn sj_word(c: char, kd: bool, ks: bool) -> bool {
    &&& ascii_char(c)
    &&& ascii_to_lower(c) == c
    &&& !(is_sep(c) && !(kd && c == '.'))
    &&& (ks || !is_special_char(c))
}

/// The shape of every snake/kebab body: word characters, with single join
/// characters strictly between them — never leading, never trailing, never
/// doubled.
pub open spec fn sj_wf(t: Seq<char>, join: char, kd: bool, ks: bool) -> bool {
    &&& forall|i: int| 0 <= i < t.len() ==> #[trigger] t[i] == join || sj_word(t[i], kd, ks)
    &&& (t.len() > 0 ==> t[0] != join)
    &&& forall|i: int|
        0 <= i < t.len() && #[trigger] t[i] == join ==> i + 1 < t.len() && t[i + 1] != join
}

/// The join characters the conventions use.
pub open spec fn sj_join(join: char) -> bool {
    join == '_' || join == '-'
}

/// The snake/kebab walk only produces well-formed bodies.
proof fn lemma_sj_wf(
    s: Seq<char>,
    i: int,
    pending: bool,
    out: Seq<char>,
    join: char,
    kd: bool,
    ks: bool,
)
    requires
        seq_all_ascii(s),
        sj_join(join),
        0 <= i <= s.len(),
        sj_wf(out, join, kd, ks),
        out.len() > 0 ==> out[out.len() - 1] != join,
    ensures
        ({
            let r = crate::naming_conventions::sep_join_rec(s, i, pending, out, join, kd, ks);
            &&& sj_wf(r, join, kd, ks)
            &&& (r.len() > 0 ==> r[r.len() - 1] != join)
        }),
    decreases s.len() - i,
{
    if i < s.len() {
        let c = s[i];
        assert(ascii_char(c));
        if crate::chars::char_is_upper(c) {
            let boundary = pending || (i > 0 && crate::chars::char_is_lower(s[i - 1]));
            let w = crate::chars::to_lower_char(c);
            assert(sj_word(w, kd, ks));
            let out1 = if out.len() > 0 && boundary {
                out.push(join)
            } else {
                out
            };
            let out2 = out1.push(w);
            assert(sj_wf(out2, join, kd, ks) && out2[out2.len() - 1] != join) by {
                assert(w != join);
                assert(forall|j: int|
                    0 <= j < out.len() ==> #[trigger] out2[j] == out[j]);
            }
            lemma_sj_wf(s, i + 1, false, out2, join, kd, ks);
        } else if is_sep(c) && !(kd && c == '.') {
            lemma_sj_wf(s, i + 1, true, out, join, kd, ks);
        } else if !ks && is_special_char(c) {
            lemma_sj_wf(s, i + 1, pending, out, join, kd, ks);
        } else {
            let w = crate::chars::to_lower_char(c);
            assert(w == c);
            assert(sj_word(w, kd, ks));
            let out1 = if out.len() > 0 && pending {
                out.push(join)
            } else {
                out
            };
            let out2 = out1.push(w);
            assert(sj_wf(out2, join, kd, ks) && out2[out2.len() - 1] != join) by {
                assert(w != join);
                assert(forall|j: int|
                    0 <= j < out.len() ==> #[trigger] out2[j] == out[j]);
            }
            lemma_sj_wf(s, i + 1, false, out2, join, kd, ks);
        }
    }
}

/// A well-formed body is a fixed point of the snake/kebab walk: from any
/// position, with the state the walk would have there, the rest of the walk
/// reproduces the body exactly.
proof fn lemma_sj_fixed_from(
    t: Seq<char>,
    join: char,
    kd: bool,
    ks: bool,
    i: int,
    pending: bool,
    out: Seq<char>,
)
    requires
        sj_join(join),
        sj_wf(t, join, kd, ks),
        0 <= i <= t.len(),
        (i > 0 && t[i - 1] == join) ==> pending && out == t.subrange(0, i - 1),
        !(i > 0 && t[i - 1] == join) ==> !pending && out == t.subrange(0, i),
    ensures
        crate::naming_conventions::sep_join_rec(t, i, pending, out, join, kd, ks) == t,
    decreases t.len() - i,
{
    if i == t.len() {
        if i > 0 && t[i - 1] == join {
            assert(false);
        } else {
            assert(out =~= t);
        }
    } else {
        let c = t[i];
        if c == join {
            assert(!crate::chars::char_is_upper(c));
            assert(is_sep(c) && !(kd && c == '.'));
            assert(!(i > 0 && t[i - 1] == join));
            assert(t.subrange(0, i) =~= t.subrange(0, (i + 1) - 1));
            lemma_sj_fixed_from(t, join, kd, ks, i + 1, true, out);
        } else {
            assert(sj_word(c, kd, ks));
            assert(!crate::chars::char_is_upper(c));
            assert(crate::chars::to_lower_char(c) == c);
            if i > 0 && t[i - 1] == join {
                assert(pending && out == t.subrange(0, i - 1));
                assert(t[0] != join);
                assert(i - 1 > 0);
                assert(out.len() > 0);
                let out2 = out.push(join).push(c);
                assert(out2 =~= t.subrange(0, i + 1));
                lemma_sj_fixed_from(t, join, kd, ks, i + 1, false, out2);
            } else {
                assert(!pending && out == t.subrange(0, i));
                let out2 = out.push(c);
                assert(out2 =~= t.subrange(0, i + 1));
                lemma_sj_fixed_from(t, join, kd, ks, i + 1, false, out2);
            }
        }
    }
}

/// Idempotence of the snake_case and kebab-case conventions: converting an
/// ASCII name twice gives what converting it once gives. One family of
/// names is excluded: when dots are kept as ordinary characters, a name
/// whose conversion *begins* with a kept dot the name itself did not begin
/// with would be re-read as a dotfile by the second pass.
pub proof fn lemma_sep_join_idempotent(s: Seq<char>, snake: bool, kd: bool, ks: bool, ku: bool)
    requires
        seq_all_ascii(s),
        ({
            let nc = if snake {
                NamingConvention::SnakeCase
            } else {
                NamingConvention::KebabCase
            };
            let r = apply_nc_spec(nc, s, kd, ks, ku);
            (s.len() > 0 && s[0] == '.') || r.len() == 0 || r[0] != '.'
        }),
    ensures
        ({
            let nc = if snake {
                NamingConvention::SnakeCase
            } else {
                NamingConvention::KebabCase
            };
            apply_nc_spec(nc, apply_nc_spec(nc, s, kd, ks, ku), kd, ks, ku) == apply_nc_spec(
                nc,
                s,
                kd,
                ks,
                ku,
            )
        }),
{
    let nc = if snake {
        NamingConvention::SnakeCase
    } else {
        NamingConvention::KebabCase
    };
    let join = if snake {
        '_'
    } else {
        '-'
    };
    if s.len() == 0 {
    } else {
        let dot = s[0] == '.';
        let body0 = if dot {
            s.drop_first()
        } else {
            s
        };
        assert(seq_all_ascii(body0)) by {
            assert(forall|j: int|
                0 <= j < body0.len() ==> #[trigger] body0[j] == s[if dot {
                    j + 1
                } else {
                    j
                }]);
        }
        assert(fold_is_identity(body0));
        let body = if ku {
            body0
        } else {
            crate::chars::fold_prepared(body0)
        };
        assert(body == body0);
        let out = crate::naming_conventions::sep_join_rec(
            body,
            0,
            false,
            Seq::empty(),
            join,
            kd,
            ks,
        );
        lemma_sj_wf(body, 0, false, Seq::empty(), join, kd, ks);
        let pre: Seq<char> = if dot {
            seq!['.']
        } else {
            Seq::empty()
        };
        let r = pre + out;
        assert(apply_nc_spec(nc, s, kd, ks, ku) == r);
        if r.len() == 0 {
        } else {
            let dot2 = r[0] == '.';
            if dot {
                assert(r[0] == '.');
                assert(r.drop_first() =~= out);
                assert(seq_all_ascii(out)) by {
                    assert(forall|j: int|
                        0 <= j < out.len() ==> #[trigger] out[j] == join || sj_word(out[j], kd, ks));
                }
                assert(fold_is_identity(out));
                assert(out.subrange(0, 0) =~= Seq::<char>::empty());
                lemma_sj_fixed_from(out, join, kd, ks, 0, false, Seq::empty());
                assert(apply_nc_spec(nc, r, kd, ks, ku) == seq!['.'] + out);
                assert(seq!['.'] + out =~= r);
            } else {
                assert(r =~= out);
                assert(!dot2);
                assert(seq_all_ascii(out)) by {
                    assert(forall|j: int|
                        0 <= j < out.len() ==> #[trigger] out[j] == join || sj_word(out[j], kd, ks));
                }
                assert(fold_is_identity(out));
                assert(out.subrange(0, 0) =~= Seq::<char>::empty());
                lemma_sj_fixed_from(out, join, kd, ks, 0, false, Seq::empty());
                assert(apply_nc_spec(nc, r, kd, ks, ku) == Seq::<char>::empty() + out);
                assert(Seq::<char>::empty() + out =~= r);
            }
        }
    }
}

// ---------------------------------------------------------------------------
// camelCase
// ---------------------------------------------------------------------------

/// The provable shape of every camelCase body: ASCII; special characters
/// only when they are kept; and no separator characters at all — the walk
/// turns every separator into a pending boundary and emits none.
pub open spec fn cm_wf(t: Seq<char>, kd: bool, ks: bool) -> bool {
    &&& seq_all_ascii(t)
    &&& forall|i: int| 0 <= i < t.len() ==> ks || !is_special_char(#[trigger] t[i])
    &&& forall|i: int| 0 <= i < t.len() ==> !(is_sep(#[trigger] t[i]) && !(kd && t[i] == '.'))
}

/// Uppercase only right after lowercase: the camelCase outputs that the
/// walk maps to themselves. An uppercase letter anywhere else — at the
/// start, or after another uppercase or a special — is lowercased by a
/// second pass.
pub open spec fn uppers_after_lowers(t: Seq<char>) -> bool {
    forall|i: int|
        0 <= i < t.len() && crate::chars::char_is_upper(#[trigger] t[i]) ==> i > 0
            && crate::chars::char_is_lower(t[i - 1])
}

/// The camelCase walk only produces bodies of the [`cm_wf`] shape.
proof fn lemma_cm_shape(s: Seq<char>, i: int, su: bool, out: Seq<char>, kd: bool, ks: bool)
    requires
        seq_all_ascii(s),
        0 <= i <= s.len(),
        cm_wf(out, kd, ks),
    ensures
        cm_wf(crate::naming_conventions::camel_rec(s, i, su, out, kd, ks), kd, ks),
    decreases s.len() - i,
{
    if i >= s.len() {
    } else {
        let c = s[i];
        assert(ascii_char(c));
        if is_sep(c) && !(kd && c == '.') {
            lemma_cm_shape(s, i + 1, true, out, kd, ks);
        } else if is_special_char(c) {
            if ks {
                // a kept special; not a separator in this mode, or the
                // first branch would have taken it
                let out2 = out.push(c);
                assert(forall|j: int| 0 <= j < out.len() ==> #[trigger] out2[j] == out[j]);
                lemma_cm_shape(s, i + 1, su, out2, kd, ks);
            } else {
                lemma_cm_shape(s, i + 1, su, out, kd, ks);
            }
        } else if crate::chars::char_is_upper(c) && i > 0 && crate::chars::char_is_lower(
            s[i - 1],
        ) {
            let out2 = out.push(c);
            assert(!is_sep(c));
            assert(forall|j: int| 0 <= j < out.len() ==> #[trigger] out2[j] == out[j]);
            lemma_cm_shape(s, i + 1, su, out2, kd, ks);
        } else if su && out.len() > 0 {
            let w = crate::chars::to_upper_char(c);
            let out2 = out.push(w);
            assert(!is_special_char(w) && !is_sep(w) && ascii_char(w));
            assert(forall|j: int| 0 <= j < out.len() ==> #[trigger] out2[j] == out[j]);
            lemma_cm_shape(s, i + 1, false, out2, kd, ks);
        } else {
            let w = crate::chars::to_lower_char(c);
            let out2 = out.push(w);
            assert(!is_special_char(w) && !is_sep(w) && ascii_char(w));
            assert(forall|j: int| 0 <= j < out.len() ==> #[trigger] out2[j] == out[j]);
            lemma_cm_shape(s, i + 1, false, out2, kd, ks);
        }
    }
}

/// A body of the right shape whose uppercase letters all follow lowercase
/// ones is a fixed point of the camelCase walk.
proof fn lemma_cm_fixed_from(t: Seq<char>, kd: bool, ks: bool, i: int)
    requires
        cm_wf(t, kd, ks),
        uppers_after_lowers(t),
        0 <= i <= t.len(),
    ensures
        crate::naming_conventions::camel_rec(t, i, false, t.subrange(0, i), kd, ks) == t,
    decreases t.len() - i,
{
    if i == t.len() {
        assert(t.subrange(0, i) =~= t);
    } else {
        let c = t[i];
        assert(ascii_char(c));
        let out = t.subrange(0, i);
        if is_sep(c) && !(kd && c == '.') {
            // a camel body holds no separators
            assert(false);
        } else if is_special_char(c) {
            assert(ks);
            assert(out.push(c) =~= t.subrange(0, i + 1));
            lemma_cm_fixed_from(t, kd, ks, i + 1);
        } else if crate::chars::char_is_upper(c) && i > 0 && crate::chars::char_is_lower(
            t[i - 1],
        ) {
            assert(out.push(c) =~= t.subrange(0, i + 1));
            lemma_cm_fixed_from(t, kd, ks, i + 1);
        } else {
            assert(!crate::chars::char_is_upper(c));
            assert(crate::chars::to_lower_char(c) == c);
            assert(out.push(c) =~= t.subrange(0, i + 1));
            lemma_cm_fixed_from(t, kd, ks, i + 1);
        }
    }
}

/// Idempotence of the camelCase convention: converting an ASCII name twice
/// gives what converting it once gives, provided the converted name keeps
/// uppercase letters only right after lowercase ones (a second pass
/// lowercases any other — a word capitalized right after a preserved
/// acronym run or right after a kept special character), and provided it
/// does not begin with a kept dot the name itself did not begin with.
pub proof fn lemma_camel_idempotent(s: Seq<char>, kd: bool, ks: bool, ku: bool)
    requires
        seq_all_ascii(s),
        uppers_after_lowers(apply_nc_spec(NamingConvention::CamelCase, s, kd, ks, ku)),
        ({
            let r = apply_nc_spec(NamingConvention::CamelCase, s, kd, ks, ku);
            (s.len() > 0 && s[0] == '.') || r.len() == 0 || r[0] != '.'
        }),
    ensures
        apply_nc_spec(
            NamingConvention::CamelCase,
            apply_nc_spec(NamingConvention::CamelCase, s, kd, ks, ku),
            kd,
            ks,
            ku,
        ) == apply_nc_spec(NamingConvention::CamelCase, s, kd, ks, ku),
{
    if s.len() == 0 {
    } else {
        let dot = s[0] == '.';
        let body0 = if dot {
            s.drop_first()
        } else {
            s
        };
        assert(seq_all_ascii(body0)) by {
            assert(forall|j: int|
                0 <= j < body0.len() ==> #[trigger] body0[j] == s[if dot {
                    j + 1
                } else {
                    j
                }]);
        }
        assert(fold_is_identity(body0));
        let out = crate::naming_conventions::camel_rec(body0, 0, false, Seq::empty(), kd, ks);
        lemma_cm_shape(body0, 0, false, Seq::empty(), kd, ks);
        let pre: Seq<char> = if dot {
            seq!['.']
        } else {
            Seq::empty()
        };
        let r = pre + out;
        assert(apply_nc_spec(NamingConvention::CamelCase, s, kd, ks, ku) == r);
        if r.len() == 0 {
        } else {
            assert(uppers_after_lowers(out)) by {
                assert forall|j: int|
                    0 <= j < out.len() && crate::chars::char_is_upper(#[trigger] out[j]) implies j
                    > 0 && crate::chars::char_is_lower(out[j - 1]) by {
                    let k = j + pre.len();
                    assert(r[k] == out[j]);
                    assert(crate::chars::char_is_upper(r[k]));
                    assert(k > 0 && crate::chars::char_is_lower(r[k - 1]));
                    if dot && k == 1 {
                        assert(r[0] == '.');
                        assert(!crate::chars::char_is_lower('.'));
                        assert(false);
                    } else {
                        assert(r[k - 1] == out[j - 1]);
                    }
                }
            }
            if dot {
                assert(r[0] == '.');
                assert(r.drop_first() =~= out);
                assert(fold_is_identity(out));
                assert(out.subrange(0, 0) =~= Seq::<char>::empty());
                lemma_cm_fixed_from(out, kd, ks, 0);
                assert(apply_nc_spec(NamingConvention::CamelCase, r, kd, ks, ku) == seq!['.']
                    + out);
                assert(seq!['.'] + out =~= r);
            } else {
                assert(r =~= out);
                assert(r[0] != '.');
                assert(fold_is_identity(out));
                assert(out.subrange(0, 0) =~= Seq::<char>::empty());
                lemma_cm_fixed_from(out, kd, ks, 0);
                assert(apply_nc_spec(NamingConvention::CamelCase, r, kd, ks, ku)
                    == Seq::<char>::empty() + out);
                assert(Seq::<char>::empty() + out =~= r);
            }
        }
    }
}

// ---------------------------------------------------------------------------
// PascalCase
// ---------------------------------------------------------------------------

/// Two bodies that differ at most in their first character walk alike from
/// any later position — the first character only ever matters again as the
/// left neighbour of an uppercase second character, which the caller rules
/// out.
proof fn lemma_cm_walk_agree(
    c: Seq<char>,
    r: Seq<char>,
    i: int,
    su: bool,
    out: Seq<char>,
    kd: bool,
    ks: bool,
)
    requires
        c.len() == r.len(),
        1 <= i <= c.len(),
        forall|j: int| 1 <= j < c.len() ==> #[trigger] c[j] == r[j],
        i == 1 && c.len() > 1 ==> !crate::chars::char_is_upper(c[1]),
    ensures
        crate::naming_conventions::camel_rec(c, i, su, out, kd, ks)
            == crate::naming_conventions::camel_rec(r, i, su, out, kd, ks),
    decreases c.len() - i,
{
    if i < c.len() {
        assert(c[i] == r[i]);
        if i >= 2 {
            assert(c[i - 1] == r[i - 1]);
        }
        lemma_cm_walk_agree(c, r, i + 1, true, out, kd, ks);
        lemma_cm_walk_agree(c, r, i + 1, su, out, kd, ks);
        lemma_cm_walk_agree(c, r, i + 1, su, out.push(c[i]), kd, ks);
        lemma_cm_walk_agree(c, r, i + 1, false, out.push(crate::chars::to_upper_char(c[i])), kd, ks);
        lemma_cm_walk_agree(c, r, i + 1, false, out.push(crate::chars::to_lower_char(c[i])), kd, ks);
    }
}

/// Idempotence of the PascalCase convention: converting an ASCII name twice
/// gives what converting it once gives, under the same provisos as for
/// camelCase — only that the capitalized first letter itself is allowed,
/// so the uppercase-after-lowercase condition starts at the second
/// character.
pub proof fn lemma_pascal_idempotent(s: Seq<char>, kd: bool, ks: bool, ku: bool)
    requires
        seq_all_ascii(s),
        ({
            let r = apply_nc_spec(NamingConvention::PascalCase, s, kd, ks, ku);
            forall|i: int|
                1 <= i < r.len() && crate::chars::char_is_upper(#[trigger] r[i])
                    ==> crate::chars::char_is_lower(r[i - 1])
        }),
        ({
            let r = apply_nc_spec(NamingConvention::PascalCase, s, kd, ks, ku);
            (s.len() > 0 && s[0] == '.') || r.len() == 0 || r[0] != '.'
        }),
    ensures
        apply_nc_spec(
            NamingConvention::PascalCase,
            apply_nc_spec(NamingConvention::PascalCase, s, kd, ks, ku),
            kd,
            ks,
            ku,
        ) == apply_nc_spec(NamingConvention::PascalCase, s, kd, ks, ku),
{
    let r = apply_nc_spec(NamingConvention::PascalCase, s, kd, ks, ku);
    if s.len() == 0 {
    } else {
        let dot = s[0] == '.';
        let body0 = if dot {
            s.drop_first()
        } else {
            s
        };
        assert(seq_all_ascii(body0)) by {
            assert(forall|j: int|
                0 <= j < body0.len() ==> #[trigger] body0[j] == s[if dot {
                    j + 1
                } else {
                    j
                }]);
        }
        assert(fold_is_identity(body0));
        let out = crate::naming_conventions::camel_rec(body0, 0, false, Seq::empty(), kd, ks);
        lemma_cm_shape(body0, 0, false, Seq::empty(), kd, ks);
        let pre: Seq<char> = if dot {
            seq!['.']
        } else {
            Seq::empty()
        };
        let c = pre + out;
        assert(r == crate::naming_conventions::capitalize_spec(c));
        assert(seq_all_ascii(c)) by {
            assert forall|j: int| 0 <= j < c.len() implies ascii_char(#[trigger] c[j]) by {
                if dot && j == 0 {
                } else {
                    assert(c[j] == out[j - pre.len()]);
                }
            }
        }
        if c.len() == 0 {
            assert(r =~= c);
        } else {
            let c0 = c[0];
            assert(ascii_char(c0));
            assert(r =~= seq![ascii_to_upper(c0)] + c.drop_first());
            assert(r.len() == c.len());
            assert(forall|j: int| 1 <= j < c.len() ==> #[trigger] r[j] == c[j]);
            assert(seq_all_ascii(r)) by {
                assert forall|j: int| 0 <= j < r.len() implies ascii_char(#[trigger] r[j]) by {
                    if j == 0 {
                        assert(r[0] == ascii_to_upper(c0));
                        lemma_case_keeps_kept(c0, ks);
                    } else {
                        assert(r[j] == c[j]);
                    }
                }
            }
            if 97 <= (c0 as int) && (c0 as int) <= 122 {
                // capitalized lowercase front: the second pass lowercases it
                // back, and the rest of the walk reproduces the body
                assert(!dot) by {
                    if dot {
                        assert(c[0] == '.');
                    }
                }
                assert(c =~= out);
                assert(cm_wf(c, kd, ks));
                assert(r[0] == ascii_to_upper(c0));
                assert(crate::chars::char_is_upper(r[0]));
                assert(c.len() > 1 ==> !crate::chars::char_is_upper(c[1])) by {
                    if c.len() > 1 && crate::chars::char_is_upper(c[1]) {
                        assert(r[1] == c[1]);
                        assert(crate::chars::char_is_lower(r[0]));
                        assert(false);
                    }
                }
                assert(uppers_after_lowers(c)) by {
                    assert forall|j: int|
                        0 <= j < c.len() && crate::chars::char_is_upper(#[trigger] c[j]) implies j
                        > 0 && crate::chars::char_is_lower(c[j - 1]) by {
                        if j >= 2 {
                            assert(r[j] == c[j] && r[j - 1] == c[j - 1]);
                        }
                    }
                }
                // the second pass over r
                assert(r[0] != '.');
                let w0 = crate::naming_conventions::camel_rec(r, 0, false, Seq::empty(), kd, ks);
                assert(w0 == crate::naming_conventions::camel_rec(
                    r,
                    1,
                    false,
                    Seq::empty().push(c0),
                    kd,
                    ks,
                )) by {
                    assert(!is_sep(r[0]));
                    assert(!is_special_char(r[0]));
                    assert(crate::chars::to_lower_char(r[0]) == c0);
                }
                lemma_cm_walk_agree(c, r, 1, false, Seq::empty().push(c0), kd, ks);
                assert(c.subrange(0, 1) =~= Seq::empty().push(c0));
                lemma_cm_fixed_from(c, kd, ks, 1);
                assert(w0 == c);
                assert(fold_is_identity(r));
                assert(apply_nc_spec(NamingConvention::PascalCase, r, kd, ks, ku)
                    == crate::naming_conventions::capitalize_spec(Seq::<char>::empty() + w0));
                assert(Seq::<char>::empty() + w0 =~= c);
                assert(crate::naming_conventions::capitalize_spec(c) == r);
            } else if 65 <= (c0 as int) && (c0 as int) <= 90 {
                // an already-uppercase front: the second pass lowercases and
                // re-capitalizes it
                assert(!dot) by {
                    if dot {
                        assert(c[0] == '.');
                    }
                }
                assert(c =~= out);
                assert(cm_wf(c, kd, ks));
                assert(ascii_to_upper(c0) == c0);
                assert(r =~= c);
                assert(c.len() > 1 ==> !crate::chars::char_is_upper(c[1])) by {
                    if c.len() > 1 && crate::chars::char_is_upper(c[1]) {
                        assert(r[1] == c[1]);
                        assert(crate::chars::char_is_lower(r[0]));
                        assert(r[0] == c0);
                        assert(false);
                    }
                }
                let lc0 = ascii_to_lower(c0);
                assert(97 <= (lc0 as int) && (lc0 as int) <= 122);
                let w = seq![lc0] + c.drop_first();
                assert(w.len() == c.len());
                assert(forall|j: int| 1 <= j < c.len() ==> #[trigger] w[j] == c[j]);
                assert(cm_wf(w, kd, ks)) by {
                    assert forall|j: int| 0 <= j < w.len() implies ascii_char(#[trigger] w[j])
                        && (ks || !is_special_char(w[j])) && (is_sep(w[j]) && !(kd && w[j] == '.')
                        ==> (j == 0 || j == w.len() - 1)) by {
                        if j == 0 {
                            assert(w[0] == lc0);
                        } else {
                            assert(w[j] == c[j]);
                        }
                    }
                }
                assert(uppers_after_lowers(w)) by {
                    assert forall|j: int|
                        0 <= j < w.len() && crate::chars::char_is_upper(#[trigger] w[j]) implies j
                        > 0 && crate::chars::char_is_lower(w[j - 1]) by {
                        if j == 0 {
                            assert(w[0] == lc0);
                            assert(false);
                        } else if j == 1 {
                            assert(w[1] == c[1]);
                            assert(false);
                        } else {
                            assert(w[j] == r[j] && w[j - 1] == r[j - 1]);
                        }
                    }
                }
                // the second pass over r (== c)
                assert(r[0] == c0 && r[0] != '.');
                let w0 = crate::naming_conventions::camel_rec(r, 0, false, Seq::empty(), kd, ks);
                assert(w0 == crate::naming_conventions::camel_rec(
                    r,
                    1,
                    false,
                    Seq::empty().push(lc0),
                    kd,
                    ks,
                )) by {
                    assert(!is_sep(r[0]));
                    assert(!is_special_char(r[0]));
                    assert(crate::chars::to_lower_char(r[0]) == lc0);
                }
                assert(w.len() > 1 ==> !crate::chars::char_is_upper(w[1]));
                lemma_cm_walk_agree(w, r, 1, false, Seq::empty().push(lc0), kd, ks);
                assert(w.subrange(0, 1) =~= Seq::empty().push(lc0));
                lemma_cm_fixed_from(w, kd, ks, 1);
                assert(w0 == w);
                assert(fold_is_identity(r));
                assert(apply_nc_spec(NamingConvention::PascalCase, r, kd, ks, ku)
                    == crate::naming_conventions::capitalize_spec(Seq::<char>::empty() + w0));
                assert(Seq::<char>::empty() + w0 =~= w);
                assert(crate::naming_conventions::capitalize_spec(w) =~= seq![
                    ascii_to_upper(lc0),
                ] + w.drop_first());
                assert(ascii_to_upper(lc0) == c0);
                assert(seq![ascii_to_upper(lc0)] + w.drop_first() =~= r);
            } else {
                // a non-letter front is its own capitalization: the name
                // converts exactly as under camelCase
                assert(ascii_to_upper(c0) == c0);
                assert(r =~= c);
                assert(uppers_after_lowers(c)) by {
                    assert forall|j: int|
                        0 <= j < c.len() && crate::chars::char_is_upper(#[trigger] c[j]) implies j
                        > 0 && crate::chars::char_is_lower(c[j - 1]) by {
                        if j == 0 {
                            assert(!crate::chars::char_is_upper(c0));
                            assert(false);
                        } else {
                            assert(r[j] == c[j]);
                            assert(crate::chars::char_is_lower(r[j - 1]));
                            if j == 1 {
                                assert(r[0] == ascii_to_upper(c0));
                            } else {
                                assert(r[j - 1] == c[j - 1]);
                            }
                        }
                    }
                }
                if c[0] == '.' {
                    assert(dot) by {
                        if !dot {
                            assert(c =~= out);
                            assert(cm_wf(out, kd, ks));
                            assert(r[0] == '.');
                            assert((s.len() > 0 && s[0] == '.') || r.len() == 0 || r[0] != '.');
                        }
                    }
                    assert(uppers_after_lowers(out)) by {
                        assert forall|j: int|
                            0 <= j < out.len() && crate::chars::char_is_upper(#[trigger] out[j])
                            implies j > 0 && crate::chars::char_is_lower(out[j - 1]) by {
                            assert(out[j] == c[j + 1]);
                            assert(crate::chars::char_is_lower(c[j]));
                            if j == 0 {
                                assert(c[0] == '.');
                                assert(false);
                            } else {
                                assert(c[j] == out[j - 1]);
                            }
                        }
                    }
                    assert(r[0] == '.');
                    assert(r.drop_first() =~= out);
                    assert(fold_is_identity(out));
                    assert(out.subrange(0, 0) =~= Seq::<char>::empty());
                    lemma_cm_fixed_from(out, kd, ks, 0);
                    assert(apply_nc_spec(NamingConvention::PascalCase, r, kd, ks, ku)
                        == crate::naming_conventions::capitalize_spec(seq!['.'] + out));
                    assert(seq!['.'] + out =~= c);
                    assert(crate::naming_conventions::capitalize_spec(c) == r);
                } else {
                    assert(!dot) by {
                        if dot {
                            assert(c[0] == '.');
                        }
                    }
                    assert(c =~= out);
                    assert(cm_wf(c, kd, ks));
                    assert(r[0] != '.');
                    assert(fold_is_identity(r));
                    assert(c.subrange(0, 0) =~= Seq::<char>::empty());
                    assert(r == c) by {
                        assert(r =~= c);
                    }
                    lemma_cm_fixed_from(c, kd, ks, 0);
                    assert(apply_nc_spec(NamingConvention::PascalCase, r, kd, ks, ku)
                        == crate::naming_conventions::capitalize_spec(
                        Seq::<char>::empty() + crate::naming_conventions::camel_rec(
                            c,
                            0,
                            false,
                            Seq::empty(),
                            kd,
                            ks,
                        ),
                    ));
                    assert(Seq::<char>::empty() + c =~= c);
                    assert(crate::naming_conventions::capitalize_spec(c) == r);
                }
            }
        }
    }
}

} // verus!
