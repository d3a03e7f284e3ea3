//! URL validation: trim, lowercase, percent-decode, then a permissive
//! URL-syntax check.
//!
//! The syntax check asks only for the coarse shape `[scheme ://] authority
//! [/ path]`: no whitespace or control characters anywhere, a scheme (when
//! one is present) that starts with a letter, and a nonempty authority.
//! Decode failures surface as the percent-decoder's own error kinds, never
//! as `InvalidUrl`.

use vstd::prelude::*;

use crate::error::TransformError;
use crate::percent::decode;
use crate::percent::decode_spec;
use crate::text::first_idx;
use crate::text::is_digit;
use crate::text::is_lower_alpha;
use crate::text::is_space;
use crate::text::lemma_first_idx;
use crate::text::lower_of;
use crate::text::lowercase;
use crate::text::find_char;
use crate::text::trim;
use crate::text::trim_spec;

verus! {

/// A character acceptable anywhere in a URL: not whitespace and not a
/// control character.
pub open spec fn url_char(c: char) -> bool {
    !is_space(c) && (c as u32) > 31 && (c as u32) != 127
}

/// A character allowed in a scheme after its leading letter.
pub open spec fn scheme_char(c: char) -> bool {
    is_lower_alpha(c) || is_digit(c) || c == '+' || c == '-' || c == '.'
}

/// A scheme (of a lowercased URL): a letter followed by letters, digits,
/// `+`, `-` or `.`.
pub open spec fn scheme_ok(s: Seq<char>) -> bool {
    &&& s.len() >= 1
    &&& is_lower_alpha(s[0])
    &&& forall|i: int| 0 <= i < s.len() ==> scheme_char(s[i])
}

/// The index of the first `://` in `s`, or `s.len()` when there is none.
pub open spec fn first_sep(s: Seq<char>) -> int
    decreases s.len(),
{
    if s.len() < 3 {
        s.len() as int
    } else if s[0] == ':' && s[1] == '/' && s[2] == '/' {
        0
    } else {
        1 + first_sep(s.skip(1))
    }
}

/// The part up to the first `/` — the authority — is nonempty.
pub open spec fn authority_ok(r: Seq<char>) -> bool {
    first_idx(r, '/') >= 1
}

/// A permissively valid URL: acceptable characters throughout, an optional
/// scheme before `://`, and a nonempty authority.
pub open spec fn url_ok(s: Seq<char>) -> bool {
    &&& s.len() > 0
    &&& (forall|i: int| 0 <= i < s.len() ==> url_char(s[i]))
    &&& if first_sep(s) >= s.len() {
        authority_ok(s)
    } else {
        scheme_ok(s.take(first_sep(s))) && authority_ok(s.skip(first_sep(s) + 3))
    }
}

pub fn char_is_url(c: char) -> (r: bool)
    ensures
        r == url_char(c),
{
    !crate::text::char_is_space(c) && (c as u32) > 31 && (c as u32) != 127
}

pub fn char_is_scheme(c: char) -> (r: bool)
    ensures
        r == scheme_char(c),
{
    ('a' <= c && c <= 'z') || ('0' <= c && c <= '9') || c == '+' || c == '-' || c == '.'
}

proof fn lemma_first_sep(s: Seq<char>)
    ensures
        0 <= first_sep(s) <= s.len(),
        first_sep(s) < s.len() ==> first_sep(s) + 2 < s.len() && s[first_sep(s)] == ':' && s[
            first_sep(s) + 1
        ] == '/' && s[first_sep(s) + 2] == '/',
    decreases s.len(),
{
    if s.len() >= 3 && !(s[0] == ':' && s[1] == '/' && s[2] == '/') {
        lemma_first_sep(s.skip(1));
        let k = first_sep(s);
        if k < s.len() {
            assert(s.skip(1)[k - 1] == s[k]);
            assert(s.skip(1)[k] == s[k + 1]);
            assert(s.skip(1)[k + 1] == s[k + 2]);
        }
    }
}

proof fn lemma_first_sep_at(s: Seq<char>, k: int)
    requires
        0 <= k <= s.len(),
        forall|i: int|
            0 <= i < k ==> !(i + 2 < s.len() && #[trigger] s[i] == ':' && s[i + 1] == '/' && s[i
                + 2] == '/'),
        k == s.len() || (k + 2 < s.len() && s[k] == ':' && s[k + 1] == '/' && s[k + 2] == '/'),
    ensures
        first_sep(s) == k,
    decreases s.len(),
{
    if s.len() < 3 {
        assert(k == s.len());
    } else if s[0] == ':' && s[1] == '/' && s[2] == '/' {
        assert(k == 0);
    } else {
        assert(k >= 1);
        assert forall|i: int|
            0 <= i < k - 1 implies !(i + 2 < s.skip(1).len() && #[trigger] s.skip(1)[i] == ':'
            && s.skip(1)[i + 1] == '/' && s.skip(1)[i + 2] == '/') by {
            assert(s.skip(1)[i] == s[i + 1]);
            if i + 2 < s.skip(1).len() {
                assert(s.skip(1)[i + 1] == s[i + 2]);
                assert(s.skip(1)[i + 2] == s[i + 3]);
            }
        }
        if k < s.len() {
            assert(s.skip(1)[k - 1] == s[k]);
            assert(s.skip(1)[k] == s[k + 1]);
            assert(s.skip(1)[k + 1] == s[k + 2]);
        }
        lemma_first_sep_at(s.skip(1), k - 1);
    }
}

/// The index of the first `://` in `s`, or the length of `s` when there is
/// none.
pub fn find_sep(s: &str) -> (r: usize)
    ensures
        r as int == first_sep(s@),
{
    let n = s.unicode_len();
    if n < 3 {
        return n;
    }
    let mut i: usize = 0;
    while i < n - 2
        invariant
            0 <= i <= n == s@.len(),
            n >= 3,
            forall|j: int|
                0 <= j < i ==> !(j + 2 < s@.len() && #[trigger] s@[j] == ':' && s@[j + 1] == '/'
                    && s@[j + 2] == '/'),
        decreases n - i,
    {
        if s.get_char(i) == ':' && s.get_char(i + 1) == '/' && s.get_char(i + 2) == '/' {
            proof {
                lemma_first_sep_at(s@, i as int);
            }
            return i;
        }
        i = i + 1;
    }
    proof {
        lemma_first_sep_at(s@, n as int);
    }
    n
}

fn check_scheme(s: &str) -> (r: bool)
    ensures
        r == scheme_ok(s@),
{
    let n = s.unicode_len();
    if n == 0 {
        return false;
    }
    let c0 = s.get_char(0);
    if !('a' <= c0 && c0 <= 'z') {
        return false;
    }
    let mut i: usize = 0;
    while i < n
        invariant
            0 <= i <= n == s@.len(),
            forall|j: int| 0 <= j < i ==> scheme_char(s@[j]),
        decreases n - i,
    {
        if !char_is_scheme(s.get_char(i)) {
            return false;
        }
        i = i + 1;
    }
    true
}

/// Whether an already decoded, lowercased string matches the URL shape.
pub fn check_url(s: &str) -> (r: bool)
    ensures
        r == url_ok(s@),
{
    let n = s.unicode_len();
    if n == 0 {
        return false;
    }
    let mut i: usize = 0;
    while i < n
        invariant
            0 <= i <= n == s@.len(),
            forall|j: int| 0 <= j < i ==> url_char(s@[j]),
        decreases n - i,
    {
        if !char_is_url(s.get_char(i)) {
            return false;
        }
        i = i + 1;
    }
    let j = find_sep(s);
    proof {
        lemma_first_sep(s@);
    }
    if j == n {
        proof {
            lemma_first_idx(s@, '/');
        }
        find_char(s, '/') >= 1
    } else {
        let scheme = s.substring_char(0, j);
        proof {
            assert(scheme@ =~= s@.take(j as int));
        }
        if !check_scheme(scheme) {
            return false;
        }
        let rest = s.substring_char(j + 3, n);
        proof {
            assert(rest@ =~= s@.skip(j + 3));
            lemma_first_idx(rest@, '/');
        }
        find_char(rest, '/') >= 1
    }
}

/// Trims surrounding whitespace, lowercases, percent-decodes, and accepts
/// the decoded string only when it matches the URL shape. A decode failure
/// is reported with the percent-decoder's own error kind; a shape failure
/// with `InvalidUrl`. Relies on `str::to_lowercase` through `lower_of` for
/// the case folding.
pub fn validate(s: &str) -> (r: Result<String, TransformError>)
    ensures
        (match r {
            Ok(t) => decode_spec(lower_of(trim_spec(s@))) == Ok::<Seq<char>, TransformError>(t@) && url_ok(
                t@,
            ),
            Err(e) => (match decode_spec(lower_of(trim_spec(s@))) {
                Ok(d) => !url_ok(d) && e == TransformError::InvalidUrl,
                Err(de) => e == de,
            }),
        }),
{
    let t = lowercase(trim(s).as_str());
    match decode(t.as_str()) {
        Ok(d) => {
            if check_url(d.as_str()) {
                Ok(d)
            } else {
                Err(TransformError::InvalidUrl)
            }
        },
        Err(e) => Err(e),
    }
}

} // verus!
