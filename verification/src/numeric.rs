//! Recognizing the texts that parse as 64-bit floating-point numbers.
//!
//! The grammar is the one `f64` accepts from text: an optional sign, then
//! either `inf`, `infinity` or `nan` (any letter case), or a run of digits
//! with at most one decimal point and an optional exponent part.

use vstd::prelude::*;

verus! {

pub open spec fn is_ascii_digit(c: char) -> bool {
    '0' <= c && c <= '9'
}

/// The numeric value of a decimal digit character.
pub open spec fn digit_value(c: char) -> int {
    c as int - '0' as int
}

/// Whether `c` equals the lowercase letter `l`, ignoring letter case.
pub open spec fn eq_ignore_case(c: char, l: char) -> bool {
    c == l || c as int == l as int - 32
}

/// Whether `s` spells `lower` up to letter case.
pub open spec fn matches_ignore_case(s: Seq<char>, lower: Seq<char>) -> bool {
    s.len() == lower.len() && forall|k: int|
        0 <= k < s.len() ==> eq_ignore_case(s[k], lower[k])
}

/// `s` without one leading `+` or `-`, if it has one.
pub open spec fn strip_sign(s: Seq<char>) -> Seq<char> {
    if s.len() > 0 && (s[0] == '+' || s[0] == '-') {
        s.skip(1)
    } else {
        s
    }
}

/// One of the special spellings of an infinite or undefined value.
pub open spec fn is_special_value(s: Seq<char>) -> bool {
    matches_ignore_case(s, "inf"@) || matches_ignore_case(s, "infinity"@)
        || matches_ignore_case(s, "nan"@)
}

/// A nonempty run of decimal digits.
pub open spec fn is_count(s: Seq<char>) -> bool {
    s.len() > 0 && forall|k: int| 0 <= k < s.len() ==> is_ascii_digit(s[k])
}

/// A digit run with one optional leading sign.
pub open spec fn is_signed_count(s: Seq<char>) -> bool {
    is_count(strip_sign(s))
}

/// Digits with at most one decimal point among them, holding at least one
/// digit: the part of a number before any exponent.
pub open spec fn is_mantissa(s: Seq<char>) -> bool {
    &&& forall|k: int| 0 <= k < s.len() ==> is_ascii_digit(s[k]) || s[k] == '.'
    &&& exists|k: int| 0 <= k < s.len() && is_ascii_digit(s[k])
    &&& forall|k1: int, k2: int|
        0 <= k1 < k2 < s.len() && s[k1] == '.' ==> s[k2] != '.'
}

/// A mantissa, optionally followed by `e` or `E` and a signed digit run.
pub open spec fn is_number(s: Seq<char>) -> bool {
    ||| is_mantissa(s)
    ||| exists|k: int|
        0 <= k < s.len() && (s[k] == 'e' || s[k] == 'E') && is_mantissa(s.take(k))
            && is_signed_count(s.skip(k + 1))
}

/// The texts that parse as a 64-bit floating-point number.
pub open spec fn is_float_text(s: Seq<char>) -> bool {
    is_special_value(strip_sign(s)) || is_number(strip_sign(s))
}

fn is_digit_char(c: char) -> (r: bool)
    ensures
        r == is_ascii_digit(c),
{
    '0' <= c && c <= '9'
}

fn eq_ignore_case_char(c: char, l: char) -> (r: bool)
    ensures
        r == eq_ignore_case(c, l),
{
    c == l || (l as u32 >= 32 && c as u32 == l as u32 - 32)
}

/// Whether `s`, from position `start` on, spells `lower` up to letter case.
fn matches_ignore_case_from(s: &str, start: usize, lower: &str) -> (r: bool)
    requires
        start <= s@.len(),
    ensures
        r == matches_ignore_case(s@.skip(start as int), lower@),
{
    let n = s.unicode_len();
    let m = lower.unicode_len();
    if n - start != m {
        return false;
    }
    let mut k: usize = 0;
    while k < m
        invariant
            k <= m,
            start <= n,
            n == s@.len(),
            m == lower@.len(),
            n - start == m,
            forall|j: int| 0 <= j < k ==> eq_ignore_case(s@.skip(start as int)[j], lower@[j]),
        decreases m - k,
    {
        if !eq_ignore_case_char(s.get_char(start + k), lower.get_char(k)) {
            return false;
        }
        k = k + 1;
    }
    true
}

/// The position of the first `e` or `E` in `s` at or after `from`, or the
/// length of `s` where there is none.
fn find_exponent_mark(s: &str, from: usize) -> (r: usize)
    requires
        from <= s@.len(),
    ensures
        from <= r <= s@.len(),
        r < s@.len() ==> (s@[r as int] == 'e' || s@[r as int] == 'E'),
        forall|k: int| from <= k < r ==> !(s@[k] == 'e' || s@[k] == 'E'),
{
    let n = s.unicode_len();
    let mut j = from;
    while j < n
        invariant
            from <= j <= n,
            n == s@.len(),
            forall|k: int| from <= k < j ==> !(s@[k] == 'e' || s@[k] == 'E'),
        decreases n - j,
    {
        let c = s.get_char(j);
        if c == 'e' || c == 'E' {
            return j;
        }
        j = j + 1;
    }
    n
}

/// Whether `s@.subrange(from, to)` is a mantissa.
fn check_mantissa(s: &str, from: usize, to: usize) -> (r: bool)
    requires
        from <= to <= s@.len(),
    ensures
        r == is_mantissa(s@.subrange(from as int, to as int)),
{
    let ghost sub = s@.subrange(from as int, to as int);
    let mut seen_digit = false;
    let mut seen_dot = false;
    let mut j = from;
    while j < to
        invariant
            from <= j <= to <= s@.len(),
            sub == s@.subrange(from as int, to as int),
            seen_digit == exists|k: int| 0 <= k < j - from && is_ascii_digit(sub[k]),
            seen_dot == exists|k: int| 0 <= k < j - from && sub[k] == '.',
            forall|k: int| 0 <= k < j - from ==> is_ascii_digit(sub[k]) || sub[k] == '.',
            forall|k1: int, k2: int|
                0 <= k1 < k2 < j - from && sub[k1] == '.' ==> sub[k2] != '.',
        decreases to - j,
    {
        let c = s.get_char(j);
        proof {
            assert(sub[j - from] == c);
        }
        if is_digit_char(c) {
            proof {
                assert(is_ascii_digit(sub[j - from]));
            }
            seen_digit = true;
        } else if c == '.' {
            if seen_dot {
                proof {
                    let k1 = choose|k: int| 0 <= k < j - from && sub[k] == '.';
                    assert(sub[k1] == '.' && sub[j - from] == '.');
                    assert(!is_mantissa(sub));
                }
                return false;
            }
            seen_dot = true;
        } else {
            proof {
                assert(!(is_ascii_digit(sub[j - from]) || sub[j - from] == '.'));
                assert(!is_mantissa(sub));
            }
            return false;
        }
        j = j + 1;
    }
    seen_digit
}

/// Whether `s@.skip(from)` is a signed digit run.
fn check_signed_count(s: &str, from: usize) -> (r: bool)
    requires
        from <= s@.len(),
    ensures
        r == is_signed_count(s@.skip(from as int)),
{
    let n = s.unicode_len();
    let ghost body = s@.skip(from as int);
    let mut j = from;
    if j < n {
        let c = s.get_char(j);
        if c == '+' || c == '-' {
            j = j + 1;
        }
    }
    proof {
        assert(strip_sign(body) =~= s@.skip(j as int));
    }
    let ghost digits = s@.skip(j as int);
    if j == n {
        proof {
            assert(digits.len() == 0);
        }
        return false;
    }
    let mut k = j;
    while k < n
        invariant
            from <= j <= k <= n,
            n == s@.len(),
            digits == s@.skip(j as int),
            strip_sign(s@.skip(from as int)) == digits,
            forall|i: int| 0 <= i < k - j ==> is_ascii_digit(digits[i]),
        decreases n - k,
    {
        let c = s.get_char(k);
        proof {
            assert(digits[k - j] == c);
        }
        if !is_digit_char(c) {
            proof {
                assert(!is_ascii_digit(digits[k - j]));
            }
            return false;
        }
        k = k + 1;
    }
    true
}

/// Whether `s` parses as a 64-bit floating-point number.
pub fn is_numeric_text(s: &str) -> (r: bool)
    ensures
        r == is_float_text(s@),
{
    let n = s.unicode_len();
    let mut start: usize = 0;
    if n > 0 {
        let c0 = s.get_char(0);
        if c0 == '+' || c0 == '-' {
            start = 1;
        }
    }
    proof {
        assert(strip_sign(s@) =~= s@.skip(start as int));
    }
    let ghost body = s@.skip(start as int);
    if matches_ignore_case_from(s, start, "inf") || matches_ignore_case_from(s, start, "infinity")
        || matches_ignore_case_from(s, start, "nan") {
        return true;
    }
    let e = find_exponent_mark(s, start);
    if e == n {
        let r = check_mantissa(s, start, n);
        proof {
            assert(s@.subrange(start as int, n as int) =~= body);
            if !r {
                assert forall|k: int|
                    0 <= k < body.len() && (body[k] == 'e' || body[k] == 'E') implies false by {
                    assert(s@[start as int + k] == body[k]);
                }
                assert(!is_number(body));
            }
        }
        r
    } else {
        let r1 = check_mantissa(s, start, e);
        let r2 = if r1 {
            check_signed_count(s, e + 1)
        } else {
            false
        };
        let r = r1 && r2;
        proof {
            let k0 = e - start;
            assert(body[k0] == s@[e as int]);
            assert(body.take(k0) =~= s@.subrange(start as int, e as int));
            assert(body.skip(k0 + 1) =~= s@.skip(e as int + 1));
            assert(!is_mantissa(body)) by {
                assert(body[k0] == 'e' || body[k0] == 'E');
                assert(!(is_ascii_digit(body[k0]) || body[k0] == '.'));
            }
            assert forall|k: int|
                0 <= k < body.len() && (body[k] == 'e' || body[k] == 'E') && is_mantissa(
                    body.take(k),
                ) implies k == k0 by {
                if k < k0 {
                    assert(s@[start as int + k] == body[k]);
                } else if k > k0 {
                    assert(body.take(k)[k0] == body[k0]);
                    assert(!(is_ascii_digit(body.take(k)[k0]) || body.take(k)[k0] == '.'));
                }
            }
            if r1 && r2 {
                assert(is_number(body));
            } else {
                assert(!is_number(body)) by {
                    if is_number(body) {
                        let k = choose|k: int|
                            0 <= k < body.len() && (body[k] == 'e' || body[k] == 'E')
                                && is_mantissa(body.take(k)) && is_signed_count(body.skip(k + 1));
                        assert(k == k0);
                    }
                }
            }
        }
        r
    }
}

} // verus!
