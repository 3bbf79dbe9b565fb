//! The decimal floating-point literal grammar that number segments accept.
//!
//! A literal is an optional sign followed either by one of the special words
//! `inf`, `infinity` or `nan` (in any casing) or by a number: a mantissa made
//! of digits with at most one dot among them and at least one digit, then an
//! optional exponent, written `e` or `E`, an optional sign and digits. The
//! whole input must belong to the grammar; nothing may trail it.

use vstd::prelude::*;

verus! {

/// A decimal digit.
pub open spec fn is_digit(c: char) -> bool {
    '0' <= c && c <= '9'
}

/// A leading sign.
pub open spec fn is_sign(c: char) -> bool {
    c == '+' || c == '-'
}

/// An exponent marker.
pub open spec fn is_e(c: char) -> bool {
    c == 'e' || c == 'E'
}

/// `s` without its leading sign, if it carries one.
pub open spec fn strip_sign(s: Seq<char>) -> Seq<char> {
    if s.len() > 0 && is_sign(s[0]) {
        s.skip(1)
    } else {
        s
    }
}

/// One or more digits and nothing else.
pub open spec fn is_count(s: Seq<char>) -> bool {
    s.len() > 0 && (forall|i: int| 0 <= i < s.len() ==> is_digit(#[trigger] s[i]))
}

/// Digits with at most one dot among them and at least one digit: the
/// integral and fractional part of a number.
pub open spec fn is_mantissa(s: Seq<char>) -> bool {
    &&& forall|i: int| 0 <= i < s.len() ==> is_digit(#[trigger] s[i]) || s[i] == '.'
    &&& exists|i: int| 0 <= i < s.len() && is_digit(#[trigger] s[i])
    &&& forall|i: int, j: int| #![trigger s[i], s[j]]
        0 <= i < j < s.len() ==> !(s[i] == '.' && s[j] == '.')
}

/// What follows an exponent marker: an optional sign, then digits.
pub open spec fn is_exp_tail(s: Seq<char>) -> bool {
    is_count(strip_sign(s))
}

/// A number: a mantissa alone, or a mantissa, an exponent marker and an
/// exponent.
pub open spec fn is_number_body(s: Seq<char>) -> bool {
    ||| is_mantissa(s)
    ||| exists|i: int| #![trigger s[i]]
        0 <= i < s.len() && is_e(s[i]) && is_mantissa(s.subrange(0, i)) && is_exp_tail(
            s.subrange(i + 1, s.len() as int),
        )
}

/// `c` is the letter `l`, in either case; `u` is `l`'s upper-case form.
pub open spec fn eq_ci(c: char, l: char, u: char) -> bool {
    c == l || c == u
}

/// `inf`, `infinity` or `nan`, in any casing.
pub open spec fn is_special_body(s: Seq<char>) -> bool {
    ||| (s.len() == 3 && eq_ci(s[0], 'i', 'I') && eq_ci(s[1], 'n', 'N') && eq_ci(s[2], 'f', 'F'))
    ||| (s.len() == 8 && eq_ci(s[0], 'i', 'I') && eq_ci(s[1], 'n', 'N') && eq_ci(s[2], 'f', 'F')
        && eq_ci(s[3], 'i', 'I') && eq_ci(s[4], 'n', 'N') && eq_ci(s[5], 'i', 'I') && eq_ci(
        s[6],
        't',
        'T',
    ) && eq_ci(s[7], 'y', 'Y'))
    ||| (s.len() == 3 && eq_ci(s[0], 'n', 'N') && eq_ci(s[1], 'a', 'A') && eq_ci(s[2], 'n', 'N'))
}

/// A complete decimal floating-point literal: an optional sign, then a
/// special word or a number.
pub open spec fn is_float_literal(s: Seq<char>) -> bool {
    is_special_body(strip_sign(s)) || is_number_body(strip_sign(s))
}

/// Whether `s[from..to]` is one or more digits.
fn check_count(s: &str, from: usize, to: usize) -> (r: bool)
    requires
        from <= to <= s@.len(),
    ensures
        r == is_count(s@.subrange(from as int, to as int)),
{
    let ghost sub = s@.subrange(from as int, to as int);
    if from == to {
        return false;
    }
    let mut i: usize = from;
    while i < to
        invariant
            from <= i <= to <= s@.len(),
            sub == s@.subrange(from as int, to as int),
            forall|k: int| from <= k < i ==> is_digit(#[trigger] s@[k]),
        decreases to - i,
    {
        let c = s.get_char(i);
        if c < '0' || c > '9' {
            proof {
                assert(sub[i - from] == s@[i as int]);
            }
            return false;
        }
        i += 1;
    }
    proof {
        assert forall|j: int| 0 <= j < sub.len() implies is_digit(sub[j]) by {
            assert(sub[j] == s@[from + j]);
        }
    }
    true
}

/// Whether `s[from..to]` is an exponent: an optional sign, then digits.
fn check_exp_tail(s: &str, from: usize, to: usize) -> (r: bool)
    requires
        from <= to <= s@.len(),
    ensures
        r == is_exp_tail(s@.subrange(from as int, to as int)),
{
    let ghost sub = s@.subrange(from as int, to as int);
    if from < to {
        let c = s.get_char(from);
        if c == '+' || c == '-' {
            let r = check_count(s, from + 1, to);
            proof {
                assert(sub[0] == s@[from as int]);
                assert(strip_sign(sub) =~= s@.subrange(from + 1, to as int));
            }
            return r;
        }
        proof {
            assert(sub[0] == s@[from as int]);
            assert(strip_sign(sub) =~= sub);
        }
    }
    let r = check_count(s, from, to);
    r
}

/// Whether `s[from..to]` is a mantissa.
fn check_mantissa(s: &str, from: usize, to: usize) -> (r: bool)
    requires
        from <= to <= s@.len(),
    ensures
        r == is_mantissa(s@.subrange(from as int, to as int)),
{
    let ghost sub = s@.subrange(from as int, to as int);
    let mut i: usize = from;
    let mut seen_digit = false;
    let mut seen_dot = false;
    while i < to
        invariant
            from <= i <= to <= s@.len(),
            sub == s@.subrange(from as int, to as int),
            forall|k: int| from <= k < i ==> is_digit(#[trigger] s@[k]) || s@[k] == '.',
            seen_digit == (exists|k: int| from <= k < i && is_digit(#[trigger] s@[k])),
            seen_dot == (exists|k: int| from <= k < i && (#[trigger] s@[k]) == '.'),
            forall|k: int, l: int| #![trigger s@[k], s@[l]]
                from <= k < l < i ==> !(s@[k] == '.' && s@[l] == '.'),
        decreases to - i,
    {
        let c = s.get_char(i);
        if '0' <= c && c <= '9' {
            seen_digit = true;
        } else if c == '.' {
            if seen_dot {
                proof {
                    let k = choose|k: int| from <= k < i && (#[trigger] s@[k]) == '.';
                    assert(sub[k - from] == s@[k]);
                    assert(sub[i - from] == s@[i as int]);
                }
                return false;
            }
            seen_dot = true;
        } else {
            proof {
                assert(sub[i - from] == s@[i as int]);
            }
            return false;
        }
        i += 1;
    }
    proof {
        assert forall|j: int| 0 <= j < sub.len() implies is_digit(sub[j]) || sub[j] == '.' by {
            assert(sub[j] == s@[from + j]);
        }
        assert forall|j1: int, j2: int| #![trigger sub[j1], sub[j2]]
            0 <= j1 < j2 < sub.len() implies !(sub[j1] == '.' && sub[j2] == '.') by {
            assert(sub[j1] == s@[from + j1]);
            assert(sub[j2] == s@[from + j2]);
        }
        if seen_digit {
            let k = choose|k: int| from <= k < to && is_digit(#[trigger] s@[k]);
            assert(sub[k - from] == s@[k]);
        } else {
            assert forall|j: int| 0 <= j < sub.len() implies !is_digit(sub[j]) by {
                assert(sub[j] == s@[from + j]);
            }
        }
    }
    seen_digit
}

/// The position of the first exponent marker in `s[from..to]`, or `to` if
/// there is none.
fn find_e(s: &str, from: usize, to: usize) -> (r: usize)
    requires
        from <= to <= s@.len(),
    ensures
        from <= r <= to,
        r < to ==> is_e(s@[r as int]),
        forall|k: int| from <= k < r ==> !is_e(#[trigger] s@[k]),
{
    let mut i: usize = from;
    while i < to
        invariant
            from <= i <= to <= s@.len(),
            forall|k: int| from <= k < i ==> !is_e(#[trigger] s@[k]),
        decreases to - i,
    {
        let c = s.get_char(i);
        if c == 'e' || c == 'E' {
            return i;
        }
        i += 1;
    }
    i
}

/// Whether `s[from..to]` is one of the special words.
fn check_special(s: &str, from: usize, to: usize) -> (r: bool)
    requires
        from <= to <= s@.len(),
    ensures
        r == is_special_body(s@.subrange(from as int, to as int)),
{
    let ghost sub = s@.subrange(from as int, to as int);
    let len: usize = to - from;
    if len == 3 {
        let c0 = s.get_char(from);
        let c1 = s.get_char(from + 1);
        let c2 = s.get_char(from + 2);
        proof {
            assert(sub[0] == s@[from as int]);
            assert(sub[1] == s@[from + 1]);
            assert(sub[2] == s@[from + 2]);
        }
        let inf = (c0 == 'i' || c0 == 'I') && (c1 == 'n' || c1 == 'N') && (c2 == 'f' || c2 == 'F');
        let nan = (c0 == 'n' || c0 == 'N') && (c1 == 'a' || c1 == 'A') && (c2 == 'n' || c2 == 'N');
        inf || nan
    } else if len == 8 {
        let c0 = s.get_char(from);
        let c1 = s.get_char(from + 1);
        let c2 = s.get_char(from + 2);
        let c3 = s.get_char(from + 3);
        let c4 = s.get_char(from + 4);
        let c5 = s.get_char(from + 5);
        let c6 = s.get_char(from + 6);
        let c7 = s.get_char(from + 7);
        proof {
            assert(sub[0] == s@[from as int]);
            assert(sub[1] == s@[from + 1]);
            assert(sub[2] == s@[from + 2]);
            assert(sub[3] == s@[from + 3]);
            assert(sub[4] == s@[from + 4]);
            assert(sub[5] == s@[from + 5]);
            assert(sub[6] == s@[from + 6]);
            assert(sub[7] == s@[from + 7]);
        }
        (c0 == 'i' || c0 == 'I') && (c1 == 'n' || c1 == 'N') && (c2 == 'f' || c2 == 'F') && (c3
            == 'i' || c3 == 'I') && (c4 == 'n' || c4 == 'N') && (c5 == 'i' || c5 == 'I') && (c6
            == 't' || c6 == 'T') && (c7 == 'y' || c7 == 'Y')
    } else {
        false
    }
}

/// Whether the whole of `s` is a decimal floating-point literal.
pub fn is_valid(s: &str) -> (r: bool)
    ensures
        r == is_float_literal(s@),
{
    let n: usize = s.unicode_len();
    let mut start: usize = 0;
    if n > 0 {
        let c = s.get_char(0);
        if c == '+' || c == '-' {
            start = 1;
        }
    }
    proof {
        assert(strip_sign(s@) =~= s@.subrange(start as int, n as int));
    }
    let ghost body = s@.subrange(start as int, n as int);
    if check_special(s, start, n) {
        return true;
    }
    let epos: usize = find_e(s, start, n);
    if epos == n {
        let r = check_mantissa(s, start, n);
        proof {
            if !r && is_number_body(body) {
                let i = choose|i: int| #![trigger body[i]]
                    0 <= i < body.len() && is_e(body[i]) && is_mantissa(body.subrange(0, i))
                        && is_exp_tail(body.subrange(i + 1, body.len() as int));
                assert(body[i] == s@[start + i]);
            }
        }
        return r;
    }
    let m = check_mantissa(s, start, epos);
    let e = check_exp_tail(s, epos + 1, n);
    proof {
        let ghost ei = epos - start;
        assert(body[ei] == s@[epos as int]);
        assert(body.subrange(0, ei) =~= s@.subrange(start as int, epos as int));
        assert(body.subrange(ei + 1, body.len() as int) =~= s@.subrange(epos + 1, n as int));
        if m && e {
            assert(is_number_body(body));
        } else {
            assert(!is_mantissa(body)) by {
                if is_mantissa(body) {
                    assert(is_digit(body[ei]) || body[ei] == '.');
                }
            }
            assert(!is_number_body(body)) by {
                if is_number_body(body) {
                    let i = choose|i: int| #![trigger body[i]]
                        0 <= i < body.len() && is_e(body[i]) && is_mantissa(body.subrange(0, i))
                            && is_exp_tail(body.subrange(i + 1, body.len() as int));
                    assert(body[i] == s@[start + i]);
                    if i < ei {
                        assert(!is_e(s@[start + i]));
                    } else if i > ei {
                        assert(body.subrange(0, i)[ei] == body[ei]);
                        assert(is_digit(body[ei]) || body[ei] == '.');
                    } else {
                        assert(body.subrange(0, i) == body.subrange(0, ei));
                    }
                }
            }
        }
    }
    m && e
}

} // verus!
