//! IPv4 and IPv6 address grammars, used for bracket-literal email domains
//! such as `user@[127.0.0.1]` and `user@[::1]`.
//!
//! Both grammars are over already-lowercased text: hex digits are `0`–`9`
//! and `a`–`f`.

use vstd::prelude::*;

use crate::text::all_digits;
use crate::text::dec_val;
use crate::text::first_idx;
use crate::text::is_digit;
use crate::text::lemma_first_idx;
use crate::text::char_is_digit;
use crate::text::find_char;

verus! {

/// A decimal IPv4 octet: one to three digits, value at most 255, no leading
/// zero except for `0` itself.
pub open spec fn octet_ok(s: Seq<char>) -> bool {
    &&& 1 <= s.len() <= 3
    &&& all_digits(s)
    &&& dec_val(s) <= 255
    &&& (s[0] == '0' ==> s.len() == 1)
}

/// Exactly `k` dot-separated octets.
pub open spec fn ipv4_list_ok(s: Seq<char>, k: int) -> bool
    decreases k,
{
    if k <= 0 {
        false
    } else if k == 1 {
        first_idx(s, '.') >= s.len() && octet_ok(s)
    } else {
        &&& first_idx(s, '.') < s.len()
        &&& octet_ok(s.take(first_idx(s, '.')))
        &&& ipv4_list_ok(s.skip(first_idx(s, '.') + 1), k - 1)
    }
}

/// A dotted-quad IPv4 address.
pub open spec fn ipv4_ok(s: Seq<char>) -> bool {
    ipv4_list_ok(s, 4)
}

/// A lowercase hexadecimal digit.
pub open spec fn is_hex_lower(c: char) -> bool {
    is_digit(c) || ('a' <= c && c <= 'f')
}

/// One IPv6 group: one to four lowercase hex digits.
pub open spec fn hex_group_ok(g: Seq<char>) -> bool {
    &&& 1 <= g.len() <= 4
    &&& forall|i: int| 0 <= i < g.len() ==> is_hex_lower(g[i])
}

/// The index of the first `::` in `s`, or `s.len()` when there is none.
pub open spec fn first_dc(s: Seq<char>) -> int
    decreases s.len(),
{
    if s.len() < 2 {
        s.len() as int
    } else if s[0] == ':' && s[1] == ':' {
        0
    } else {
        1 + first_dc(s.skip(1))
    }
}

/// A nonempty colon-separated group list with at most `m` groups (exactly
/// `m` when `exact` holds); the final group may be an embedded IPv4 address,
/// which counts as two groups, when `allow_v4` holds.
pub open spec fn v6_list_ok(s: Seq<char>, m: int, exact: bool, allow_v4: bool) -> bool
    decreases s.len(),
    via v6_list_ok_dec
{
    if m <= 0 {
        false
    } else if first_idx(s, ':') >= s.len() {
        if first_idx(s, '.') < s.len() {
            allow_v4 && ipv4_ok(s) && m >= 2 && (exact ==> m == 2)
        } else {
            hex_group_ok(s) && (exact ==> m == 1)
        }
    } else {
        &&& hex_group_ok(s.take(first_idx(s, ':')))
        &&& first_idx(s, ':') + 1 < s.len()
        &&& v6_list_ok(s.skip(first_idx(s, ':') + 1), m - 1, exact, allow_v4)
    }
}

#[via_fn]
proof fn v6_list_ok_dec(s: Seq<char>, m: int, exact: bool, allow_v4: bool) {
    lemma_first_idx(s, ':');
}

/// How many colon-separated pieces `s` has.
pub open spec fn n_pieces(s: Seq<char>) -> int
    decreases s.len(),
    via n_pieces_dec
{
    if first_idx(s, ':') >= s.len() {
        1
    } else {
        1 + n_pieces(s.skip(first_idx(s, ':') + 1))
    }
}

#[via_fn]
proof fn n_pieces_dec(s: Seq<char>) {
    lemma_first_idx(s, ':');
}

/// The group count of the part left of a `::`, which may be empty.
pub open spec fn left_count(l: Seq<char>) -> int {
    if l.len() == 0 {
        0
    } else {
        n_pieces(l)
    }
}

/// An IPv6 address: eight groups (an embedded trailing IPv4 address counts
/// as two), or at most seven groups around a single `::`.
pub open spec fn ipv6_ok(s: Seq<char>) -> bool {
    if first_dc(s) >= s.len() {
        v6_list_ok(s, 8, true, true)
    } else {
        &&& first_dc(s.skip(first_dc(s) + 2)) >= s.len() - first_dc(s) - 2
        &&& (first_dc(s) == 0 || v6_list_ok(s.take(first_dc(s)), 7, false, false))
        &&& (first_dc(s) + 2 >= s.len() || v6_list_ok(
            s.skip(first_dc(s) + 2),
            7 - left_count(s.take(first_dc(s))),
            false,
            true,
        ))
    }
}

pub fn char_is_hex_lower(c: char) -> (r: bool)
    ensures
        r == is_hex_lower(c),
{
    ('0' <= c && c <= '9') || ('a' <= c && c <= 'f')
}

pub fn check_octet(s: &str) -> (r: bool)
    ensures
        r == octet_ok(s@),
{
    let n = s.unicode_len();
    if n < 1 || n > 3 {
        return false;
    }
    let mut i: usize = 0;
    while i < n
        invariant
            0 <= i <= n == s@.len(),
            forall|j: int| 0 <= j < i ==> is_digit(s@[j]),
        decreases n - i,
    {
        if !char_is_digit(s.get_char(i)) {
            return false;
        }
        i = i + 1;
    }
    if s.get_char(0) == '0' && n > 1 {
        return false;
    }
    let d0 = s.get_char(0) as u32 - '0' as u32;
    let val: u32 = if n == 1 {
        d0
    } else if n == 2 {
        let d1 = s.get_char(1) as u32 - '0' as u32;
        d0 * 10 + d1
    } else {
        let d1 = s.get_char(1) as u32 - '0' as u32;
        let d2 = s.get_char(2) as u32 - '0' as u32;
        d0 * 100 + d1 * 10 + d2
    };
    proof {
        reveal_with_fuel(dec_val, 4);
        if n == 2 {
            assert(s@.drop_last().len() == 1);
            assert(s@.drop_last()[0] == s@[0]);
            assert(s@.drop_last().drop_last().len() == 0);
        }
        if n == 3 {
            assert(s@.drop_last().len() == 2);
            assert(s@.drop_last()[0] == s@[0]);
            assert(s@.drop_last()[1] == s@[1]);
            assert(s@.drop_last().drop_last().len() == 1);
            assert(s@.drop_last().drop_last()[0] == s@[0]);
            assert(s@.drop_last().drop_last().drop_last().len() == 0);
        }
        assert(val as int == dec_val(s@));
    }
    val <= 255
}

pub fn check_ipv4_list(s: &str, k: usize) -> (r: bool)
    requires
        1 <= k <= 4,
    ensures
        r == ipv4_list_ok(s@, k as int),
    decreases k,
{
    let n = s.unicode_len();
    let j = find_char(s, '.');
    proof {
        lemma_first_idx(s@, '.');
    }
    if k == 1 {
        if j == n {
            check_octet(s)
        } else {
            false
        }
    } else {
        if j == n {
            return false;
        }
        let head = s.substring_char(0, j);
        proof {
            assert(head@ =~= s@.take(j as int));
        }
        if !check_octet(head) {
            return false;
        }
        let tail = s.substring_char(j + 1, n);
        proof {
            assert(tail@ =~= s@.skip(j + 1));
        }
        check_ipv4_list(tail, k - 1)
    }
}

pub fn check_ipv4(s: &str) -> (r: bool)
    ensures
        r == ipv4_ok(s@),
{
    check_ipv4_list(s, 4)
}

pub fn check_hex_group(s: &str) -> (r: bool)
    ensures
        r == hex_group_ok(s@),
{
    let n = s.unicode_len();
    if n < 1 || n > 4 {
        return false;
    }
    let mut i: usize = 0;
    while i < n
        invariant
            0 <= i <= n == s@.len(),
            forall|j: int| 0 <= j < i ==> is_hex_lower(s@[j]),
        decreases n - i,
    {
        if !char_is_hex_lower(s.get_char(i)) {
            return false;
        }
        i = i + 1;
    }
    true
}

proof fn lemma_first_dc(s: Seq<char>)
    ensures
        0 <= first_dc(s) <= s.len(),
        first_dc(s) < s.len() ==> first_dc(s) + 1 < s.len() && s[first_dc(s)] == ':' && s[first_dc(
            s,
        ) + 1] == ':',
    decreases s.len(),
{
    if s.len() >= 2 && !(s[0] == ':' && s[1] == ':') {
        lemma_first_dc(s.skip(1));
        let k = first_dc(s);
        if k < s.len() {
            assert(s.skip(1)[k - 1] == s[k]);
            assert(s.skip(1)[k] == s[k + 1]);
        }
    }
}

proof fn lemma_first_dc_at(s: Seq<char>, k: int)
    requires
        0 <= k <= s.len(),
        forall|i: int| 0 <= i < k ==> !(i + 1 < s.len() && #[trigger] s[i] == ':' && s[i + 1] == ':'),
        k == s.len() || (k + 1 < s.len() && s[k] == ':' && s[k + 1] == ':'),
    ensures
        first_dc(s) == k,
    decreases s.len(),
{
    if s.len() < 2 {
        assert(k == s.len());
    } else if s[0] == ':' && s[1] == ':' {
        assert(k == 0);
    } else {
        assert(k >= 1);
        assert forall|i: int| 0 <= i < k - 1 implies !(i + 1 < s.skip(1).len() && #[trigger] s.skip(
            1,
        )[i] == ':' && s.skip(1)[i + 1] == ':') by {
            assert(s.skip(1)[i] == s[i + 1]);
            if i + 2 < s.len() {
                assert(s.skip(1)[i + 1] == s[i + 2]);
            }
        }
        if k < s.len() {
            assert(s.skip(1)[k - 1] == s[k]);
            assert(s.skip(1)[k] == s[k + 1]);
        }
        lemma_first_dc_at(s.skip(1), k - 1);
    }
}

/// The index of the first `::` in `s`, or the length of `s` when there is
/// none.
pub fn find_dc(s: &str) -> (r: usize)
    ensures
        r as int == first_dc(s@),
{
    let n = s.unicode_len();
    if n < 2 {
        return n;
    }
    let mut i: usize = 0;
    while i < n - 1
        invariant
            0 <= i <= n == s@.len(),
            n >= 2,
            forall|j: int| 0 <= j < i ==> !(j + 1 < s@.len() && #[trigger] s@[j] == ':' && s@[j + 1] == ':'),
        decreases n - i,
    {
        if s.get_char(i) == ':' && s.get_char(i + 1) == ':' {
            proof {
                lemma_first_dc_at(s@, i as int);
            }
            return i;
        }
        i = i + 1;
    }
    proof {
        lemma_first_dc_at(s@, n as int);
    }
    n
}

/// A colon-separated group list has at least as many budgeted groups as
/// pieces.
proof fn lemma_v6_list_pieces(s: Seq<char>, m: int, exact: bool, allow_v4: bool)
    requires
        v6_list_ok(s, m, exact, allow_v4),
    ensures
        n_pieces(s) <= m,
    decreases s.len(),
{
    lemma_first_idx(s, ':');
    if first_idx(s, ':') < s.len() {
        lemma_v6_list_pieces(s.skip(first_idx(s, ':') + 1), m - 1, exact, allow_v4);
    }
}

pub fn check_v6_list(s: &str, m: usize, exact: bool, allow_v4: bool) -> (r: bool)
    requires
        m <= 8,
    ensures
        r == v6_list_ok(s@, m as int, exact, allow_v4),
    decreases s@.len(),
{
    if m == 0 {
        return false;
    }
    let n = s.unicode_len();
    let j = find_char(s, ':');
    proof {
        lemma_first_idx(s@, ':');
    }
    if j == n {
        let jd = find_char(s, '.');
        if jd < n {
            allow_v4 && check_ipv4(s) && m >= 2 && (!exact || m == 2)
        } else {
            check_hex_group(s) && (!exact || m == 1)
        }
    } else {
        let head = s.substring_char(0, j);
        proof {
            assert(head@ =~= s@.take(j as int));
        }
        if !check_hex_group(head) {
            return false;
        }
        if j + 1 >= n {
            return false;
        }
        let tail = s.substring_char(j + 1, n);
        proof {
            assert(tail@ =~= s@.skip(j + 1));
        }
        check_v6_list(tail, m - 1, exact, allow_v4)
    }
}

pub fn count_pieces(s: &str) -> (r: usize)
    requires
        s@.len() < usize::MAX,
    ensures
        r as int == n_pieces(s@),
        r <= s@.len() + 1,
    decreases s@.len(),
{
    let n = s.unicode_len();
    let j = find_char(s, ':');
    proof {
        lemma_first_idx(s@, ':');
    }
    if j == n {
        1
    } else {
        let tail = s.substring_char(j + 1, n);
        proof {
            assert(tail@ =~= s@.skip(j + 1));
        }
        let c = count_pieces(tail);
        1 + c
    }
}

pub fn check_ipv6(s: &str) -> (r: bool)
    ensures
        r == ipv6_ok(s@),
{
    let n = s.unicode_len();
    let i = find_dc(s);
    proof {
        lemma_first_dc(s@);
    }
    if i == n {
        return check_v6_list(s, 8, true, true);
    }
    let right = s.substring_char(i + 2, n);
    proof {
        assert(right@ =~= s@.skip(i + 2));
        lemma_first_dc(right@);
    }
    if find_dc(right) != n - (i + 2) {
        return false;
    }
    let left = s.substring_char(0, i);
    proof {
        assert(left@ =~= s@.take(i as int));
    }
    let mut budget: usize = 7;
    if i > 0 {
        if !check_v6_list(left, 7, false, false) {
            return false;
        }
        proof {
            lemma_v6_list_pieces(left@, 7, false, false);
        }
        let lg = count_pieces(left);
        budget = 7 - lg;
    }
    if i + 2 == n {
        true
    } else {
        check_v6_list(right, budget, false, true)
    }
}

} // verus!
