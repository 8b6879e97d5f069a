//! Friendly slugs: the URL names of creations and topics.

use vstd::prelude::*;
use crate::text::{trim, trim_str, lowercase, to_lowercase, concat_str, is_ascii_non_upper};
use crate::num::{decimal_text, format_i64};

verus! {

/// What deunicode's `deunicode_with_tofu` returns: `s` transliterated to
/// ASCII, unknown characters replaced by `placeholder`.
pub uninterp spec fn deunicode_with_tofu_result(s: Seq<char>, placeholder: Seq<char>) -> Seq<char>;

/// Calls `deunicode::deunicode_with_tofu`. Its result is named
/// `deunicode_with_tofu_result`; the crate returns its input unchanged when
/// every character is below 0x7F, and that is stated too.
#[verifier::external_body]
fn deunicode_with_tofu(s: &str, placeholder: &str) -> (r: String)
    ensures
        r@ == deunicode_with_tofu_result(s@, placeholder@),
        (forall|i: int| 0 <= i < s@.len() ==> (#[trigger] s@[i] as u32) < 0x7f) ==> r@ == s@,
{
    deunicode::deunicode_with_tofu(s, placeholder)
}

/// What the regex crate gives for `Regex::new(pattern)` followed by
/// `replace_all(text, rep)`: `None` when the pattern does not compile.
pub uninterp spec fn regex_replace_all_result(pattern: Seq<char>, text: Seq<char>, rep: Seq<char>) -> Option<Seq<char>>;

/// A character that may stand in a slug: `a-z`, `0-9` or `-`.
pub open spec fn is_slug_char(c: char) -> bool {
    let u = c as u32;
    (97 <= u <= 122) || (48 <= u <= 57) || u == 45
}

/// `s` with every character outside `a-z`, `0-9` and `-` replaced by `-`.
pub open spec fn dash_non_slug(s: Seq<char>) -> Seq<char> {
    s.map_values(|c: char| if is_slug_char(c) { c } else { '-' })
}

/// `s` with every run of `-` replaced by a single `-`.
pub open spec fn collapse_dashes(s: Seq<char>) -> Seq<char>
    decreases s.len(),
{
    if s.len() == 0 {
        s
    } else {
        let p = collapse_dashes(s.drop_last());
        if s.last() == '-' && p.len() > 0 && p.last() == '-' {
            p
        } else {
            p.push(s.last())
        }
    }
}

/// Compiles `pattern` with `regex::Regex::new` and, when it compiles,
/// replaces every match in `text` by `rep` (`Regex::replace_all`). The
/// result is named `regex_replace_all_result`. For the two patterns of this
/// library, with the replacement `-`, the regex syntax documentation gives the
/// result, and it is stated: `[^a-z-0-9]` matches each single character
/// outside `a-z`, `-` and `0-9`, and the greedy `-{1,}` matches each maximal
/// run of `-`, the matches taken left to right without overlap.
#[verifier::external_body]
fn regex_replace_all(pattern: &str, text: &str, rep: &str) -> (r: Option<String>)
    ensures
        match r {
            Some(t) => regex_replace_all_result(pattern@, text@, rep@) == Some(t@),
            None => regex_replace_all_result(pattern@, text@, rep@) is None,
        },
        (pattern@ == NON_SLUG_CHARS@ && rep@ == "-"@) ==> (r is Some && r->0@ == dash_non_slug(text@)),
        (pattern@ == DASH_RUN@ && rep@ == "-"@) ==> (r is Some && r->0@ == collapse_dashes(text@)),
{
    match regex::Regex::new(pattern) {
        Ok(re) => Some(re.replace_all(text, rep).into_owned()),
        Err(_) => None,
    }
}

/// Characters that may not stand in a slug.
pub const NON_SLUG_CHARS: &'static str = "[^a-z-0-9]";

/// A run of dashes.
pub const DASH_RUN: &'static str = "-{1,}";

/// The slug of `s`: trimmed, transliterated to ASCII (unknown characters
/// become `-`), lowercased, every character outside `a-z`, `0-9` and `-`
/// replaced by `-`, and runs of `-` collapsed into one. `None` only where the
/// regex crate refuses one of the two patterns.
pub open spec fn slug_of(s: Seq<char>) -> Option<Seq<char>> {
    let lower = lowercase(deunicode_with_tofu_result(trim(s), "-"@));
    match regex_replace_all_result(NON_SLUG_CHARS@, lower, "-"@) {
        Some(dashed) => regex_replace_all_result(DASH_RUN@, dashed, "-"@),
        None => None,
    }
}

/// A friendly slug: only `a-z`, `0-9` and `-`, and never two `-` in a row.
pub open spec fn is_slug(t: Seq<char>) -> bool {
    &&& forall|i: int| 0 <= i < t.len() ==> is_slug_char(#[trigger] t[i])
    &&& forall|i: int| 0 <= i < t.len() - 1 ==> !(#[trigger] t[i] == '-' && t[i + 1] == '-')
}

proof fn lemma_dash_non_slug(s: Seq<char>)
    ensures
        forall|i: int| 0 <= i < dash_non_slug(s).len() ==> is_slug_char(#[trigger] dash_non_slug(s)[i]),
{
    assert forall|i: int| 0 <= i < dash_non_slug(s).len() implies is_slug_char(#[trigger] dash_non_slug(s)[i]) by {
        assert(is_slug_char('-'));
    }
}

proof fn lemma_collapse_dashes(s: Seq<char>)
    requires
        forall|i: int| 0 <= i < s.len() ==> is_slug_char(#[trigger] s[i]),
    ensures
        is_slug(collapse_dashes(s)),
        s.len() > 0 ==> collapse_dashes(s).len() > 0 && collapse_dashes(s).last() == s.last(),
    decreases s.len(),
{
    if s.len() > 0 {
        let t = s.drop_last();
        assert forall|i: int| 0 <= i < t.len() implies is_slug_char(#[trigger] t[i]) by {
            assert(t[i] == s[i]);
        }
        lemma_collapse_dashes(t);
        let p = collapse_dashes(t);
        assert(is_slug_char(s[s.len() - 1]));
        if !(s.last() == '-' && p.len() > 0 && p.last() == '-') {
            let q = p.push(s.last());
            assert forall|i: int| 0 <= i < q.len() implies is_slug_char(#[trigger] q[i]) by {
                if i < p.len() {
                    assert(q[i] == p[i]);
                }
            }
            assert forall|i: int| 0 <= i < q.len() - 1 implies !(#[trigger] q[i] == '-' && q[i + 1] == '-') by {
                assert(q[i] == p[i]);
                if i + 1 < p.len() {
                    assert(q[i + 1] == p[i + 1]);
                } else {
                    assert(p[i] == p.last());
                }
            }
        }
    }
}

/// A slug is left as it is by each step of `slugify`: it has no white space
/// to trim, it is ASCII without capitals, no character of it is replaced and
/// it holds no run of dashes.
proof fn lemma_slug_fixed(s: Seq<char>)
    requires
        is_slug(s),
    ensures
        trim(s) == s,
        forall|i: int| 0 <= i < s.len() ==> (#[trigger] s[i] as u32) < 0x7f,
        forall|i: int| 0 <= i < s.len() ==> is_ascii_non_upper(#[trigger] s[i]),
        dash_non_slug(s) == s,
        collapse_dashes(s) == s,
    decreases s.len(),
{
    if s.len() > 0 {
        assert(is_slug_char(s[0]));
        assert(is_slug_char(s[s.len() - 1]));
    }
    assert(dash_non_slug(s) =~= s);
    if s.len() > 0 {
        let t = s.drop_last();
        assert forall|i: int| 0 <= i < t.len() implies is_slug_char(#[trigger] t[i]) by {
            assert(t[i] == s[i]);
        }
        assert forall|i: int| 0 <= i < t.len() - 1 implies !(#[trigger] t[i] == '-' && t[i + 1] == '-') by {
            assert(t[i] == s[i]);
            assert(t[i + 1] == s[i + 1]);
        }
        lemma_slug_fixed(t);
        if t.len() > 0 {
            assert(t.last() == s[s.len() - 2]);
        }
        assert(t.push(s.last()) =~= s);
    }
}

/// Generates a friendly slug from the given string: only `a-z`, `0-9` and
/// single dashes stand in it. A slug is its own slug, so slugifying twice
/// gives what slugifying once gave.
pub fn slugify(s: &str) -> (r: Option<String>)
    ensures
        match r {
            Some(t) => slug_of(s@) == Some(t@),
            None => slug_of(s@) is None,
        },
        r matches Some(t) && is_slug(t@),
        is_slug(s@) ==> (r is Some && r->0@ == s@),
{
    proof {
        if is_slug(s@) {
            lemma_slug_fixed(s@);
        }
    }
    let trimmed = trim_str(s);
    let ascii = deunicode_with_tofu(trimmed.as_str(), "-");
    let lower = to_lowercase(ascii.as_str());
    match regex_replace_all(NON_SLUG_CHARS, lower.as_str(), "-") {
        Some(dashed) => {
            let r = regex_replace_all(DASH_RUN, dashed.as_str(), "-");
            proof {
                lemma_dash_non_slug(lower@);
                lemma_collapse_dashes(dashed@);
            }
            r
        },
        None => None,
    }
}

/// `slug` followed by `-` and the decimal milliseconds `millis`, the form
/// under which creations and topics are stored.
pub open spec fn stamped(slug: Seq<char>, millis: int) -> Seq<char> {
    slug + "-"@ + decimal_text(millis)
}

/// `format!("{}-{}", slug, millis)`.
pub fn stamped_slug(slug: &str, millis: i64) -> (r: String)
    ensures
        r@ == stamped(slug@, millis as int),
{
    let with_dash = concat_str(slug, "-");
    let digits = format_i64(millis);
    concat_str(with_dash.as_str(), digits.as_str())
}

/// The stored slug of a new creation or topic named `name`, made at
/// `now_millis`.
pub fn new_slug(name: &str, now_millis: i64) -> (r: Option<String>)
    ensures
        match r {
            Some(t) => slug_of(name@) matches Some(base) && t@ == stamped(base, now_millis as int),
            None => slug_of(name@) is None,
        },
        r is Some,
{
    match slugify(name) {
        Some(base) => Some(stamped_slug(base.as_str(), now_millis)),
        None => None,
    }
}

} // verus!
