//! Email-address validation.
//!
//! The input is trimmed and lowercased, then checked against the grammar
//! `local-part @ domain`: the local part is one or more characters from the
//! unreserved email character class; the domain is either a dot-separated
//! sequence of labels (each 1 to 63 characters, no leading or trailing
//! hyphen, with non-ASCII label characters accepted for internationalized
//! names) or a bracketed IPv4/IPv6 literal such as `[127.0.0.1]`. The
//! grammar itself is over already-lowercased text; quoted local parts are
//! always invalid.

use vstd::prelude::*;

use crate::error::TransformError;
use crate::ip::ipv4_ok;
use crate::ip::ipv6_ok;
use crate::ip::check_ipv4;
use crate::ip::check_ipv6;
use crate::text::first_idx;
use crate::text::is_digit;
use crate::text::is_lower_alpha;
use crate::text::last_idx;
use crate::text::lemma_first_idx;
use crate::text::lower_of;
use crate::text::lowercase;
use crate::text::find_char;
use crate::text::rfind_char;
use crate::text::trim;
use crate::text::trim_spec;

verus! {

/// A character allowed in the local part (of a lowercased address).
pub open spec fn user_char(c: char) -> bool {
    ||| is_lower_alpha(c)
    ||| is_digit(c)
    ||| c == '.' || c == '!' || c == '#' || c == '$' || c == '%' || c == '&' || c == '\'' || c
        == '*' || c == '+' || c == '/' || c == '=' || c == '?' || c == '^' || c == '_' || c == '`'
        || c == '{' || c == '|' || c == '}' || c == '~' || c == '-'
}

/// A nonempty local part made of allowed characters.
pub open spec fn user_ok(u: Seq<char>) -> bool {
    &&& u.len() >= 1
    &&& forall|i: int| 0 <= i < u.len() ==> user_char(u[i])
}

/// A character allowed inside a domain label: a lowercase ASCII letter, a
/// digit, a hyphen, or any non-ASCII character (internationalized labels).
pub open spec fn label_char(c: char) -> bool {
    is_lower_alpha(c) || is_digit(c) || c == '-' || (c as u32) > 127
}

/// One domain label: 1 to 63 characters, no leading or trailing hyphen.
pub open spec fn label_ok(l: Seq<char>) -> bool {
    &&& 1 <= l.len() <= 63
    &&& l[0] != '-'
    &&& l[l.len() - 1] != '-'
    &&& forall|i: int| 0 <= i < l.len() ==> label_char(l[i])
}

/// A dot-separated sequence of valid labels.
pub open spec fn domain_ok(d: Seq<char>) -> bool
    decreases d.len(),
    via domain_ok_dec
{
    if first_idx(d, '.') >= d.len() {
        label_ok(d)
    } else {
        &&& label_ok(d.take(first_idx(d, '.')))
        &&& domain_ok(d.skip(first_idx(d, '.') + 1))
    }
}

#[via_fn]
proof fn domain_ok_dec(d: Seq<char>) {
    lemma_first_idx(d, '.');
}

/// A bracketed IP-address literal domain.
pub open spec fn literal_ok(d: Seq<char>) -> bool {
    &&& d.len() >= 2
    &&& d[0] == '['
    &&& d[d.len() - 1] == ']'
    &&& (ipv4_ok(d.subrange(1, d.len() - 1)) || ipv6_ok(d.subrange(1, d.len() - 1)))
}

/// A valid domain part: labels or a bracketed IP literal.
pub open spec fn domain_part_ok(d: Seq<char>) -> bool {
    domain_ok(d) || literal_ok(d)
}

/// A valid (lowercased) email address, split at its last `@`.
pub open spec fn email_ok(t: Seq<char>) -> bool {
    &&& last_idx(t, '@') >= 0
    &&& user_ok(t.take(last_idx(t, '@')))
    &&& domain_part_ok(t.skip(last_idx(t, '@') + 1))
}

pub fn char_is_user(c: char) -> (r: bool)
    ensures
        r == user_char(c),
{
    ('a' <= c && c <= 'z') || ('0' <= c && c <= '9') || c == '.' || c == '!' || c == '#' || c == '$'
        || c == '%' || c == '&' || c == '\'' || c == '*' || c == '+' || c == '/' || c == '=' || c
        == '?' || c == '^' || c == '_' || c == '`' || c == '{' || c == '|' || c == '}' || c == '~'
        || c == '-'
}

pub fn char_is_label(c: char) -> (r: bool)
    ensures
        r == label_char(c),
{
    ('a' <= c && c <= 'z') || ('0' <= c && c <= '9') || c == '-' || (c as u32) > 127
}

pub fn check_user(s: &str) -> (r: bool)
    ensures
        r == user_ok(s@),
{
    let n = s.unicode_len();
    if n == 0 {
        return false;
    }
    let mut i: usize = 0;
    while i < n
        invariant
            0 <= i <= n == s@.len(),
            forall|j: int| 0 <= j < i ==> user_char(s@[j]),
        decreases n - i,
    {
        if !char_is_user(s.get_char(i)) {
            return false;
        }
        i = i + 1;
    }
    true
}

pub fn check_label(s: &str) -> (r: bool)
    ensures
        r == label_ok(s@),
{
    let n = s.unicode_len();
    if n < 1 || n > 63 {
        return false;
    }
    if s.get_char(0) == '-' || s.get_char(n - 1) == '-' {
        return false;
    }
    let mut i: usize = 0;
    while i < n
        invariant
            0 <= i <= n == s@.len(),
            forall|j: int| 0 <= j < i ==> label_char(s@[j]),
        decreases n - i,
    {
        if !char_is_label(s.get_char(i)) {
            return false;
        }
        i = i + 1;
    }
    true
}

pub fn check_domain(s: &str) -> (r: bool)
    ensures
        r == domain_ok(s@),
    decreases s@.len(),
{
    let n = s.unicode_len();
    let j = find_char(s, '.');
    proof {
        lemma_first_idx(s@, '.');
    }
    if j == n {
        check_label(s)
    } else {
        let head = s.substring_char(0, j);
        proof {
            assert(head@ =~= s@.take(j as int));
        }
        if !check_label(head) {
            return false;
        }
        let tail = s.substring_char(j + 1, n);
        proof {
            assert(tail@ =~= s@.skip(j + 1));
        }
        check_domain(tail)
    }
}

pub fn check_literal(s: &str) -> (r: bool)
    ensures
        r == literal_ok(s@),
{
    let n = s.unicode_len();
    if n < 2 {
        return false;
    }
    if s.get_char(0) != '[' || s.get_char(n - 1) != ']' {
        return false;
    }
    let inner = s.substring_char(1, n - 1);
    check_ipv4(inner) || check_ipv6(inner)
}

/// Whether an already trimmed and lowercased string is a valid email
/// address.
pub fn check_email(t: &str) -> (r: bool)
    ensures
        r == email_ok(t@),
{
    let n = t.unicode_len();
    let k = rfind_char(t, '@');
    proof {
        crate::text::lemma_last_idx_range(t@, '@');
    }
    if k == n {
        return false;
    }
    proof {
        assert(last_idx(t@, '@') == k);
    }
    let user = t.substring_char(0, k);
    proof {
        assert(user@ =~= t@.take(k as int));
    }
    if !check_user(user) {
        return false;
    }
    let dom = t.substring_char(k + 1, n);
    proof {
        assert(dom@ =~= t@.skip(k + 1));
    }
    check_domain(dom) || check_literal(dom)
}

/// Trims surrounding whitespace, lowercases, and accepts the result only
/// when it matches the email grammar; otherwise fails with `InvalidEmail`.
/// Relies on `str::to_lowercase` through `lower_of` for the case folding.
pub fn validate(s: &str) -> (r: Result<String, TransformError>)
    ensures
        (match r {
            Ok(t) => email_ok(lower_of(trim_spec(s@))) && t@ == lower_of(trim_spec(s@)),
            Err(e) => !email_ok(lower_of(trim_spec(s@))) && e == TransformError::InvalidEmail,
        }),
{
    let t = lowercase(trim(s).as_str());
    if check_email(t.as_str()) {
        Ok(t)
    } else {
        Err(TransformError::InvalidEmail)
    }
}

} // verus!
