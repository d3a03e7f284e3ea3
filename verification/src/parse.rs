//! Parsing scalars out of text: the parse-from-text capability used by the
//! string-coercion adapters.
//!
//! Integers follow the usual decimal grammar: an optional `+` (and `-` for
//! signed targets) followed by one or more digits, with the value required
//! to fit the target; booleans are exactly `true` or `false`.

use vstd::prelude::*;

use crate::error::TransformError;
use crate::text::all_digits;
use crate::text::char_is_digit;
use crate::text::dec_val;
use crate::text::is_digit;

verus! {

/// A nonempty run of decimal digits.
pub open spec fn digits_ok(t: Seq<char>) -> bool {
    t.len() >= 1 && all_digits(t)
}

/// The digits of an unsigned literal: everything after an optional `+`.
pub open spec fn uint_body(s: Seq<char>) -> Seq<char> {
    if s.len() > 0 && s[0] == '+' {
        s.skip(1)
    } else {
        s
    }
}

/// The digits of a signed literal: everything after an optional sign.
pub open spec fn int_body(s: Seq<char>) -> Seq<char> {
    if s.len() > 0 && (s[0] == '+' || s[0] == '-') {
        s.skip(1)
    } else {
        s
    }
}

/// Whether a signed literal is negative.
pub open spec fn int_neg(s: Seq<char>) -> bool {
    s.len() > 0 && s[0] == '-'
}

/// The capability of parsing `Self` out of a string.
pub trait ParseFromText: Sized {
    /// Whether the text parses as a `Self`.
    spec fn can_parse(s: Seq<char>) -> bool;

    /// The parsed value of accepted text.
    spec fn parsed(s: Seq<char>) -> Self;

    /// Parses, or reports `ParseFailed` on rejected text.
    fn parse_text(s: &str) -> (r: Result<Self, TransformError>)
        ensures
            (match r {
                Ok(v) => Self::can_parse(s@) && v == Self::parsed(s@),
                Err(e) => !Self::can_parse(s@) && e == TransformError::ParseFailed,
            }),
    ;
}

proof fn lemma_dec_val_nonneg(t: Seq<char>)
    requires
        all_digits(t),
    ensures
        dec_val(t) >= 0,
    decreases t.len(),
{
    if t.len() > 0 {
        assert(forall|j: int| 0 <= j < t.drop_last().len() ==> t.drop_last()[j] == t[j]);
        lemma_dec_val_nonneg(t.drop_last());
    }
}

/// Reading more digits never shrinks the value.
proof fn lemma_dec_val_monotone(t: Seq<char>, k: int)
    requires
        all_digits(t),
        0 <= k <= t.len(),
    ensures
        dec_val(t) >= dec_val(t.take(k)),
    decreases t.len(),
{
    if k == t.len() {
        assert(t.take(k) =~= t);
    } else {
        let dl = t.drop_last();
        assert(forall|j: int| 0 <= j < dl.len() ==> dl[j] == t[j]);
        lemma_dec_val_monotone(dl, k);
        assert(dl.take(k) =~= t.take(k));
        lemma_dec_val_nonneg(dl);
        assert(is_digit(t[t.len() - 1]));
        assert(dec_val(t) == dec_val(dl) * 10 + (t[t.len() - 1] as int - '0' as int));
        assert(dec_val(dl) * 10 >= dec_val(dl));
    }
}

/// Parses the digit run `s[from..]` as an unsigned 64-bit value: fails when
/// the run is empty, holds a non-digit, or exceeds `u64::MAX`.
fn parse_digits_u64(s: &str, from: usize) -> (r: Result<u64, TransformError>)
    requires
        from as int <= s@.len(),
    ensures
        (match r {
            Ok(v) => digits_ok(s@.skip(from as int)) && dec_val(s@.skip(from as int)) <= u64::MAX
                && v as int == dec_val(s@.skip(from as int)),
            Err(e) => (!digits_ok(s@.skip(from as int)) || dec_val(s@.skip(from as int))
                > u64::MAX) && e == TransformError::ParseFailed,
        }),
{
    let n = s.unicode_len();
    let ghost t = s@.skip(from as int);
    if from == n {
        return Err(TransformError::ParseFailed);
    }
    let mut acc: u64 = 0;
    let mut i: usize = from;
    proof {
        assert(t.take(0) =~= Seq::<char>::empty());
    }
    while i < n
        invariant
            from <= i <= n == s@.len(),
            t == s@.skip(from as int),
            t.len() == n - from,
            forall|j: int| 0 <= j < t.len() ==> t[j] == s@[j + from],
            forall|j: int| from <= j < i ==> is_digit(s@[j]),
            acc as int == dec_val(t.take(i - from)),
        decreases n - i,
    {
        let ghost k = i - from;
        let c = s.get_char(i);
        if !char_is_digit(c) {
            proof {
                assert(t[k] == s@[i as int]);
            }
            return Err(TransformError::ParseFailed);
        }
        let d: u64 = (c as u32 - '0' as u32) as u64;
        proof {
            assert(t.take(k + 1).drop_last() =~= t.take(k));
            assert(t.take(k + 1)[k] == t[k]);
            assert(t[k] == s@[i as int]);
            assert(dec_val(t.take(k + 1)) == acc as int * 10 + d);
        }
        let next = match acc.checked_mul(10) {
            Some(m) => m.checked_add(d),
            None => None,
        };
        match next {
            Some(v) => {
                acc = v;
            },
            None => {
                proof {
                    if all_digits(t) {
                        lemma_dec_val_monotone(t, k + 1);
                    } else {
                        assert(!digits_ok(t));
                    }
                }
                return Err(TransformError::ParseFailed);
            },
        }
        i = i + 1;
    }
    proof {
        assert(t.take(n - from) =~= t);
        assert(t.len() >= 1);
        assert forall|j: int| 0 <= j < t.len() implies is_digit(t[j]) by {
            assert(t[j] == s@[j + from]);
        }
    }
    Ok(acc)
}

/// The sign of `s` and where its digits start: `(negative, digits_start)`.
fn read_sign(s: &str, allow_minus: bool) -> (r: (bool, usize))
    ensures
        r.1 as int <= s@.len(),
        allow_minus ==> (r.0 == int_neg(s@) && s@.skip(r.1 as int) == int_body(s@)),
        !allow_minus ==> (r.0 == false && s@.skip(r.1 as int) == uint_body(s@)),
{
    let n = s.unicode_len();
    proof {
        assert(s@.skip(0) =~= s@);
    }
    if n == 0 {
        return (false, 0);
    }
    let c = s.get_char(0);
    if c == '+' {
        (false, 1)
    } else if allow_minus && c == '-' {
        (true, 1)
    } else {
        (false, 0)
    }
}

impl ParseFromText for u64 {
    open spec fn can_parse(s: Seq<char>) -> bool {
        digits_ok(uint_body(s)) && dec_val(uint_body(s)) <= u64::MAX
    }

    open spec fn parsed(s: Seq<char>) -> u64 {
        dec_val(uint_body(s)) as u64
    }

    fn parse_text(s: &str) -> (r: Result<u64, TransformError>) {
        let (_, from) = read_sign(s, false);
        parse_digits_u64(s, from)
    }
}

impl ParseFromText for u8 {
    open spec fn can_parse(s: Seq<char>) -> bool {
        digits_ok(uint_body(s)) && dec_val(uint_body(s)) <= u8::MAX
    }

    open spec fn parsed(s: Seq<char>) -> u8 {
        dec_val(uint_body(s)) as u8
    }

    fn parse_text(s: &str) -> (r: Result<u8, TransformError>) {
        let (_, from) = read_sign(s, false);
        match parse_digits_u64(s, from) {
            Ok(v) => {
                if v <= u8::MAX as u64 {
                    Ok(v as u8)
                } else {
                    Err(TransformError::ParseFailed)
                }
            },
            Err(e) => Err(e),
        }
    }
}

impl ParseFromText for i64 {
    open spec fn can_parse(s: Seq<char>) -> bool {
        &&& digits_ok(int_body(s))
        &&& if int_neg(s) {
            dec_val(int_body(s)) <= 0x8000_0000_0000_0000
        } else {
            dec_val(int_body(s)) <= i64::MAX
        }
    }

    open spec fn parsed(s: Seq<char>) -> i64 {
        if int_neg(s) {
            (-dec_val(int_body(s))) as i64
        } else {
            dec_val(int_body(s)) as i64
        }
    }

    fn parse_text(s: &str) -> (r: Result<i64, TransformError>) {
        let (neg, from) = read_sign(s, true);
        match parse_digits_u64(s, from) {
            Ok(v) => {
                if neg {
                    if v <= 0x8000_0000_0000_0000u64 {
                        if v == 0x8000_0000_0000_0000u64 {
                            Ok(i64::MIN)
                        } else {
                            Ok(-(v as i64))
                        }
                    } else {
                        Err(TransformError::ParseFailed)
                    }
                } else {
                    if v <= i64::MAX as u64 {
                        Ok(v as i64)
                    } else {
                        Err(TransformError::ParseFailed)
                    }
                }
            },
            Err(e) => Err(e),
        }
    }
}

impl ParseFromText for i32 {
    open spec fn can_parse(s: Seq<char>) -> bool {
        &&& digits_ok(int_body(s))
        &&& if int_neg(s) {
            dec_val(int_body(s)) <= 0x8000_0000
        } else {
            dec_val(int_body(s)) <= i32::MAX
        }
    }

    open spec fn parsed(s: Seq<char>) -> i32 {
        if int_neg(s) {
            (-dec_val(int_body(s))) as i32
        } else {
            dec_val(int_body(s)) as i32
        }
    }

    fn parse_text(s: &str) -> (r: Result<i32, TransformError>) {
        let (neg, from) = read_sign(s, true);
        match parse_digits_u64(s, from) {
            Ok(v) => {
                if neg {
                    if v <= 0x8000_0000u64 {
                        if v == 0x8000_0000u64 {
                            Ok(i32::MIN)
                        } else {
                            Ok(-(v as i32))
                        }
                    } else {
                        Err(TransformError::ParseFailed)
                    }
                } else {
                    if v <= i32::MAX as u64 {
                        Ok(v as i32)
                    } else {
                        Err(TransformError::ParseFailed)
                    }
                }
            },
            Err(e) => Err(e),
        }
    }
}

impl ParseFromText for i8 {
    open spec fn can_parse(s: Seq<char>) -> bool {
        &&& digits_ok(int_body(s))
        &&& if int_neg(s) {
            dec_val(int_body(s)) <= 128
        } else {
            dec_val(int_body(s)) <= i8::MAX
        }
    }

    open spec fn parsed(s: Seq<char>) -> i8 {
        if int_neg(s) {
            (-dec_val(int_body(s))) as i8
        } else {
            dec_val(int_body(s)) as i8
        }
    }

    fn parse_text(s: &str) -> (r: Result<i8, TransformError>) {
        let (neg, from) = read_sign(s, true);
        match parse_digits_u64(s, from) {
            Ok(v) => {
                if neg {
                    if v <= 128u64 {
                        if v == 128u64 {
                            Ok(i8::MIN)
                        } else {
                            Ok(-(v as i8))
                        }
                    } else {
                        Err(TransformError::ParseFailed)
                    }
                } else {
                    if v <= i8::MAX as u64 {
                        Ok(v as i8)
                    } else {
                        Err(TransformError::ParseFailed)
                    }
                }
            },
            Err(e) => Err(e),
        }
    }
}

/// Exactly the text `true`.
pub open spec fn is_true_lit(s: Seq<char>) -> bool {
    s.len() == 4 && s[0] == 't' && s[1] == 'r' && s[2] == 'u' && s[3] == 'e'
}

/// Exactly the text `false`.
pub open spec fn is_false_lit(s: Seq<char>) -> bool {
    s.len() == 5 && s[0] == 'f' && s[1] == 'a' && s[2] == 'l' && s[3] == 's' && s[4] == 'e'
}

impl ParseFromText for bool {
    open spec fn can_parse(s: Seq<char>) -> bool {
        is_true_lit(s) || is_false_lit(s)
    }

    open spec fn parsed(s: Seq<char>) -> bool {
        is_true_lit(s)
    }

    fn parse_text(s: &str) -> (r: Result<bool, TransformError>) {
        let n = s.unicode_len();
        if n == 4 && s.get_char(0) == 't' && s.get_char(1) == 'r' && s.get_char(2) == 'u'
            && s.get_char(3) == 'e' {
            Ok(true)
        } else if n == 5 && s.get_char(0) == 'f' && s.get_char(1) == 'a' && s.get_char(2) == 'l'
            && s.get_char(3) == 's' && s.get_char(4) == 'e' {
            Ok(false)
        } else {
            Err(TransformError::ParseFailed)
        }
    }
}

} // verus!
