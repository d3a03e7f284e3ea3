//! Percent-decoding of `%XX` escape sequences.
//!
//! The decoder scans character by character (over Unicode scalar values, not
//! bytes). On `%` it consumes exactly the next two characters, parses them as
//! a base-16 byte, and appends that byte value reinterpreted as a single
//! character (a Latin-1-style code point, deliberately not reassembled into
//! multi-byte UTF-8). Every other character is copied verbatim.

use vstd::prelude::*;

use crate::error::TransformError;
use crate::text::is_digit;

verus! {

/// A hexadecimal digit, either case.
pub open spec fn is_hex_digit(c: char) -> bool {
    is_digit(c) || ('a' <= c && c <= 'f') || ('A' <= c && c <= 'F')
}

/// The value of a hexadecimal digit.
pub open spec fn hex_val(c: char) -> int {
    if is_digit(c) {
        c as int - '0' as int
    } else if 'a' <= c && c <= 'f' {
        c as int - 'a' as int + 10
    } else {
        c as int - 'A' as int + 10
    }
}

/// The character a `%XX` escape decodes to: the byte `XX` as a code point.
pub open spec fn escape_char(h: char, l: char) -> char {
    ((hex_val(h) * 16 + hex_val(l)) as u8) as char
}

/// Prefixes `p` onto the payload of a successful decode; errors pass through.
pub open spec fn prepend_ok(p: Seq<char>, r: Result<Seq<char>, TransformError>) -> Result<
    Seq<char>,
    TransformError,
> {
    match r {
        Ok(t) => Ok(p + t),
        Err(e) => Err(e),
    }
}

/// What decoding returns: the decoded characters, or the first error met in
/// a left-to-right scan.
pub open spec fn decode_spec(s: Seq<char>) -> Result<Seq<char>, TransformError>
    decreases s.len(),
{
    if s.len() == 0 {
        Ok(Seq::empty())
    } else if s[0] == '%' {
        if s.len() < 3 {
            Err(TransformError::TruncatedEscape)
        } else if !is_hex_digit(s[1]) || !is_hex_digit(s[2]) {
            Err(TransformError::InvalidEscape)
        } else {
            prepend_ok(seq![escape_char(s[1], s[2])], decode_spec(s.skip(3)))
        }
    } else {
        prepend_ok(seq![s[0]], decode_spec(s.skip(1)))
    }
}

proof fn lemma_prepend_empty(r: Result<Seq<char>, TransformError>)
    ensures
        prepend_ok(Seq::empty(), r) == r,
{
    match r {
        Ok(t) => {
            assert(Seq::empty() + t =~= t);
        },
        Err(_) => {},
    }
}

proof fn lemma_prepend_prepend(a: Seq<char>, b: Seq<char>, r: Result<Seq<char>, TransformError>)
    ensures
        prepend_ok(a, prepend_ok(b, r)) == prepend_ok(a + b, r),
{
    match r {
        Ok(t) => {
            assert(a + (b + t) =~= (a + b) + t);
        },
        Err(_) => {},
    }
}

pub fn char_is_hex_digit(c: char) -> (r: bool)
    ensures
        r == is_hex_digit(c),
{
    ('0' <= c && c <= '9') || ('a' <= c && c <= 'f') || ('A' <= c && c <= 'F')
}

pub fn hex_digit_val(c: char) -> (r: u8)
    requires
        is_hex_digit(c),
    ensures
        r as int == hex_val(c),
        r < 16,
{
    if '0' <= c && c <= '9' {
        (c as u32 - '0' as u32) as u8
    } else if 'a' <= c && c <= 'f' {
        (c as u32 - 'a' as u32 + 10) as u8
    } else {
        (c as u32 - 'A' as u32 + 10) as u8
    }
}

/// Decodes every `%XX` escape in `s`, copying all other characters verbatim.
/// Fails with `TruncatedEscape` when fewer than two characters follow a `%`,
/// and with `InvalidEscape` when the two are not hex digits; reports the
/// first error met, never a partial result.
pub fn decode(s: &str) -> (r: Result<String, TransformError>)
    ensures
        (match r {
            Ok(t) => decode_spec(s@) == Ok::<Seq<char>, TransformError>(t@),
            Err(e) => decode_spec(s@) == Err::<Seq<char>, TransformError>(e),
        }),
{
    let n = s.unicode_len();
    let mut out = String::new();
    let mut i: usize = 0;
    proof {
        assert(s@.skip(0) =~= s@);
        lemma_prepend_empty(decode_spec(s@));
    }
    while i < n
        invariant
            0 <= i <= n == s@.len(),
            decode_spec(s@) == prepend_ok(out@, decode_spec(s@.skip(i as int))),
        decreases n - i,
    {
        let ghost rest = s@.skip(i as int);
        proof {
            assert(rest.len() == n - i);
            assert(rest[0] == s@[i as int]);
        }
        let c = s.get_char(i);
        if c == '%' {
            if n - i < 3 {
                proof {
                    assert(rest.len() < 3);
                }
                return Err(TransformError::TruncatedEscape);
            }
            let h = s.get_char(i + 1);
            let l = s.get_char(i + 2);
            proof {
                assert(rest[1] == s@[i + 1]);
                assert(rest[2] == s@[i + 2]);
            }
            if !char_is_hex_digit(h) || !char_is_hex_digit(l) {
                return Err(TransformError::InvalidEscape);
            }
            let byte: u8 = hex_digit_val(h) * 16 + hex_digit_val(l);
            let dc = byte as char;
            proof {
                assert(dc == escape_char(h, l));
                assert(rest.skip(3) =~= s@.skip(i + 3));
                lemma_prepend_prepend(out@, seq![dc], decode_spec(s@.skip(i + 3)));
                assert(out@ + seq![dc] =~= out@.push(dc));
            }
            crate::text::push_char(&mut out, dc);
            i = i + 3;
        } else {
            proof {
                assert(rest.skip(1) =~= s@.skip(i + 1));
                lemma_prepend_prepend(out@, seq![c], decode_spec(s@.skip(i + 1)));
                assert(out@ + seq![c] =~= out@.push(c));
            }
            crate::text::push_char(&mut out, c);
            i = i + 1;
        }
    }
    proof {
        assert(s@.skip(n as int) =~= Seq::<char>::empty());
        assert(out@ + Seq::<char>::empty() =~= out@);
    }
    Ok(out)
}

/// Encodes a string so that decoding recovers it exactly: `%` becomes `%25`,
/// every other character is kept verbatim.
pub open spec fn encode_spec(s: Seq<char>) -> Seq<char>
    decreases s.len(),
{
    if s.len() == 0 {
        Seq::empty()
    } else if s[0] == '%' {
        seq!['%', '2', '5'] + encode_spec(s.skip(1))
    } else {
        seq![s[0]] + encode_spec(s.skip(1))
    }
}

/// A string with no `%` decodes to itself.
pub proof fn lemma_percent_free_decodes_to_itself(s: Seq<char>)
    requires
        forall|i: int| 0 <= i < s.len() ==> s[i] != '%',
    ensures
        decode_spec(s) == Ok::<Seq<char>, TransformError>(s),
    decreases s.len(),
{
    if s.len() == 0 {
        assert(s =~= Seq::<char>::empty());
    } else {
        lemma_percent_free_decodes_to_itself(s.skip(1));
        assert(seq![s[0]] + s.skip(1) =~= s);
    }
}

/// Decoding inverts encoding: for every string `s`,
/// `decode_spec(encode_spec(s)) == Ok(s)`.
pub proof fn lemma_decode_encode_roundtrip(s: Seq<char>)
    ensures
        decode_spec(encode_spec(s)) == Ok::<Seq<char>, TransformError>(s),
    decreases s.len(),
{
    if s.len() == 0 {
        assert(s =~= Seq::<char>::empty());
    } else {
        lemma_decode_encode_roundtrip(s.skip(1));
        let e = encode_spec(s);
        if s[0] == '%' {
            assert(e == seq!['%', '2', '5'] + encode_spec(s.skip(1)));
            assert(e[0] == '%' && e[1] == '2' && e[2] == '5');
            assert(e.len() >= 3);
            assert(is_hex_digit('2') && is_hex_digit('5'));
            assert(escape_char('2', '5') == '%');
            assert(e.skip(3) =~= encode_spec(s.skip(1)));
            assert(seq!['%'] + s.skip(1) =~= s);
        } else {
            assert(e == seq![s[0]] + encode_spec(s.skip(1)));
            assert(e[0] == s[0]);
            assert(e.skip(1) =~= encode_spec(s.skip(1)));
            assert(seq![s[0]] + s.skip(1) =~= s);
        }
    }
}

} // verus!
