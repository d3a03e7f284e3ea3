//! Phone-number normalization and validation.
//!
//! Normalization is one canonical rule: keep the first character when it is a
//! `+`, keep every decimal digit, and drop every other character. The
//! validating variant strips surrounding whitespace first (digits and `+`
//! have no case, so no case folding is applied) and then requires the result
//! to match an E.164-style grammar.

use vstd::prelude::*;

use crate::error::TransformError;
use crate::text::char_is_digit;
use crate::text::is_digit;
use crate::text::trim;
use crate::text::trim_spec;

verus! {

/// The decimal digits of `s`, in order.
pub open spec fn digits_of(s: Seq<char>) -> Seq<char>
    decreases s.len(),
{
    if s.len() == 0 {
        Seq::empty()
    } else if is_digit(s[0]) {
        seq![s[0]] + digits_of(s.skip(1))
    } else {
        digits_of(s.skip(1))
    }
}

/// What normalization returns: a leading `+` survives only at the very first
/// position, every digit is kept, everything else is dropped.
pub open spec fn normalize_spec(s: Seq<char>) -> Seq<char> {
    if s.len() > 0 && s[0] == '+' {
        seq!['+'] + digits_of(s)
    } else {
        digits_of(s)
    }
}

/// 7 to 15 digits, the first of them not `0`.
pub open spec fn phone_digits_ok(d: Seq<char>) -> bool {
    &&& 7 <= d.len() <= 15
    &&& d[0] != '0'
    &&& forall|i: int| 0 <= i < d.len() ==> is_digit(d[i])
}

/// An E.164-style phone number: an optional leading `+`, then 7 to 15
/// digits, the first of them not `0`.
pub open spec fn phone_ok(s: Seq<char>) -> bool {
    if s.len() > 0 && s[0] == '+' {
        phone_digits_ok(s.skip(1))
    } else {
        phone_digits_ok(s)
    }
}

/// Keeps a `+` in the very first position and every digit; drops every other
/// character, wherever it stands.
pub fn normalize(s: &str) -> (r: String)
    ensures
        r@ == normalize_spec(s@),
{
    let n = s.unicode_len();
    let mut out = String::new();
    if n > 0 && s.get_char(0) == '+' {
        crate::text::push_char(&mut out, '+');
    }
    let ghost lead = out@;
    let mut i: usize = 0;
    proof {
        assert(s@.skip(0) =~= s@);
    }
    while i < n
        invariant
            0 <= i <= n == s@.len(),
            out@ + digits_of(s@.skip(i as int)) == lead + digits_of(s@),
            normalize_spec(s@) == lead + digits_of(s@),
        decreases n - i,
    {
        let ghost rest = s@.skip(i as int);
        proof {
            assert(rest[0] == s@[i as int]);
            assert(rest.skip(1) =~= s@.skip(i + 1));
        }
        let c = s.get_char(i);
        if char_is_digit(c) {
            proof {
                assert(out@.push(c) + digits_of(s@.skip(i + 1)) =~= out@ + (seq![c] + digits_of(
                    s@.skip(i + 1),
                )));
            }
            crate::text::push_char(&mut out, c);
        }
        i = i + 1;
    }
    proof {
        assert(s@.skip(n as int) =~= Seq::<char>::empty());
        assert(out@ + Seq::<char>::empty() =~= out@);
    }
    out
}

pub fn check_phone(s: &str) -> (r: bool)
    ensures
        r == phone_ok(s@),
{
    let n = s.unicode_len();
    let start: usize = if n > 0 && s.get_char(0) == '+' {
        1
    } else {
        0
    };
    let ghost d = if s@.len() > 0 && s@[0] == '+' {
        s@.skip(1)
    } else {
        s@
    };
    proof {
        assert(s@.skip(0) =~= s@);
        assert(d.len() == n - start);
        assert(forall|j: int| 0 <= j < d.len() ==> d[j] == s@[j + start]);
        assert(phone_ok(s@) == phone_digits_ok(d));
    }
    if n - start < 7 || n - start > 15 {
        return false;
    }
    if s.get_char(start) == '0' {
        proof {
            assert(d[0] == s@[start as int]);
        }
        return false;
    }
    let mut i: usize = start;
    while i < n
        invariant
            start <= i <= n == s@.len(),
            d.len() == n - start,
            forall|j: int| 0 <= j < d.len() ==> d[j] == s@[j + start],
            forall|j: int| start <= j < i ==> is_digit(s@[j]),
            phone_ok(s@) == phone_digits_ok(d),
            7 <= d.len() <= 15,
            d[0] != '0',
        decreases n - i,
    {
        if !char_is_digit(s.get_char(i)) {
            proof {
                assert(d[i - start] == s@[i as int]);
                assert(!is_digit(d[i - start]));
            }
            return false;
        }
        i = i + 1;
    }
    proof {
        assert forall|j: int| 0 <= j < d.len() implies is_digit(d[j]) by {
            assert(d[j] == s@[j + start]);
        }
    }
    true
}

/// Trims surrounding whitespace, normalizes, and accepts the result only
/// when it matches the phone grammar; otherwise fails with
/// `InvalidPhoneNumber`.
pub fn validate(s: &str) -> (r: Result<String, TransformError>)
    ensures
        (match r {
            Ok(t) => phone_ok(normalize_spec(trim_spec(s@))) && t@ == normalize_spec(
                trim_spec(s@),
            ),
            Err(e) => !phone_ok(normalize_spec(trim_spec(s@))) && e == TransformError::InvalidPhoneNumber,
        }),
{
    let t = trim(s);
    let m = normalize(t.as_str());
    if check_phone(m.as_str()) {
        Ok(m)
    } else {
        Err(TransformError::InvalidPhoneNumber)
    }
}

/// Every character of `digits_of(s)` is a digit.
proof fn lemma_digits_of_digits(s: Seq<char>)
    ensures
        forall|i: int| 0 <= i < digits_of(s).len() ==> is_digit(digits_of(s)[i]),
    decreases s.len(),
{
    if s.len() > 0 {
        lemma_digits_of_digits(s.skip(1));
        let d = digits_of(s);
        let dt = digits_of(s.skip(1));
        if is_digit(s[0]) {
            assert(d == seq![s[0]] + dt);
            assert forall|i: int| 0 <= i < d.len() implies is_digit(d[i]) by {
                if i > 0 {
                    assert(d[i] == dt[i - 1]);
                }
            }
        }
    }
}

/// A sequence of digits is left unchanged by `digits_of`.
proof fn lemma_digits_of_all_digits(s: Seq<char>)
    requires
        forall|i: int| 0 <= i < s.len() ==> is_digit(s[i]),
    ensures
        digits_of(s) == s,
    decreases s.len(),
{
    if s.len() == 0 {
        assert(s =~= Seq::<char>::empty());
    } else {
        lemma_digits_of_all_digits(s.skip(1));
        assert(seq![s[0]] + s.skip(1) =~= s);
    }
}

/// Normalization is a fixed point after one pass:
/// `normalize_spec(normalize_spec(s)) == normalize_spec(s)`.
pub proof fn lemma_normalize_idempotent(s: Seq<char>)
    ensures
        normalize_spec(normalize_spec(s)) == normalize_spec(s),
{
    let d = digits_of(s);
    lemma_digits_of_digits(s);
    lemma_digits_of_all_digits(d);
    if s.len() > 0 && s[0] == '+' {
        let n = seq!['+'] + d;
        assert(n[0] == '+');
        assert(n.skip(1) =~= d);
        assert(digits_of(n) == digits_of(n.skip(1)));
        assert(normalize_spec(n) == seq!['+'] + digits_of(n));
    } else {
        if d.len() > 0 {
            assert(is_digit(d[0]));
            assert(d[0] != '+');
        }
        assert(normalize_spec(d) == digits_of(d));
    }
}

} // verus!
