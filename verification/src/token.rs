//! Tokenizing metadata values.
//!
//! Each numeric calibration field arrives as a string such as
//! `"1.0 (calculated)"`: the field's value is the first
//! whitespace-delimited token, which must be a well-formed floating-point
//! literal.  This module extracts that first token and checks it against
//! the floating-point literal grammar
//! `[+-]? ( inf | infinity | nan | digits [. digits?] exp? | . digits exp? )`
//! with `exp = (e|E) [+-]? digits` and the three words matched case
//! insensitively — the strings accepted by the standard library's
//! float parser.

use vstd::prelude::*;

verus! {

/// Whether `c` has the Unicode `White_Space` property, in the sense of
/// `char::is_whitespace`.
pub uninterp spec fn is_unicode_ws(c: char) -> bool;

/// Relies on char::is_whitespace: true exactly for characters with the
/// Unicode White_Space property, a pure function of the character.
#[verifier::external_body]
fn char_is_whitespace(c: char) -> (r: bool)
    ensures
        r == is_unicode_ws(c),
{
    c.is_whitespace()
}

/// The first index at or after `i` holding a non-whitespace character, or
/// the end of `s`.
pub open spec fn ws_end(s: Seq<char>, i: int) -> int
    decreases s.len() - i,
{
    if 0 <= i < s.len() && is_unicode_ws(s[i]) {
        ws_end(s, i + 1)
    } else {
        i
    }
}

/// The first index at or after `i` holding a whitespace character, or the
/// end of `s`.
pub open spec fn tok_end(s: Seq<char>, i: int) -> int
    decreases s.len() - i,
{
    if 0 <= i < s.len() && !is_unicode_ws(s[i]) {
        tok_end(s, i + 1)
    } else {
        i
    }
}

/// The first whitespace-delimited token of `s`, or `None` when `s` holds
/// only whitespace.
pub open spec fn first_token_of(s: Seq<char>) -> Option<Seq<char>> {
    let a = ws_end(s, 0);
    if a == s.len() {
        None
    } else {
        Some(s.subrange(a, tok_end(s, a)))
    }
}

fn scan_ws_end(s: &str, i: usize, n: usize) -> (r: usize)
    requires
        n == s@.len(),
        i <= n,
    ensures
        r as int == ws_end(s@, i as int),
        i <= r <= n,
    decreases n - i,
{
    if i < n {
        let c = s.get_char(i);
        if char_is_whitespace(c) {
            return scan_ws_end(s, i + 1, n);
        }
    }
    i
}

fn scan_tok_end(s: &str, i: usize, n: usize) -> (r: usize)
    requires
        n == s@.len(),
        i <= n,
    ensures
        r as int == tok_end(s@, i as int),
        i <= r <= n,
    decreases n - i,
{
    if i < n {
        let c = s.get_char(i);
        if !char_is_whitespace(c) {
            return scan_tok_end(s, i + 1, n);
        }
    }
    i
}

/// Extracts the first whitespace-delimited token of `s`, or `None` when
/// `s` holds only whitespace.
pub fn take_first_token(s: &str) -> (r: Option<String>)
    ensures
        match (r, first_token_of(s@)) {
            (Some(t), Some(u)) => t@ == u,
            (None, None) => true,
            _ => false,
        },
{
    let n = s.unicode_len();
    let a = scan_ws_end(s, 0, n);
    if a == n {
        None
    } else {
        let b = scan_tok_end(s, a, n);
        Some(s.substring_char(a, b).to_owned())
    }
}

/// Whether `c` is a decimal digit.
pub open spec fn is_dec_digit(c: char) -> bool {
    48 <= c as u32 <= 57
}

/// The end of the run of decimal digits starting at `i`.
pub open spec fn digits_end(s: Seq<char>, i: int) -> int
    decreases s.len() - i,
{
    if 0 <= i < s.len() && is_dec_digit(s[i]) {
        digits_end(s, i + 1)
    } else {
        i
    }
}

/// Whether `s` from `i` on is an optional exponent part followed by the
/// end of the string: empty, or `e`/`E`, an optional sign, and at least
/// one digit reaching the end.
pub open spec fn exponent_from(s: Seq<char>, i: int) -> bool {
    if i == s.len() {
        true
    } else if 0 <= i < s.len() && (s[i] == 'e' || s[i] == 'E') {
        let j = if i + 1 < s.len() && (s[i + 1] == '+' || s[i + 1] == '-') {
            i + 2
        } else {
            i + 1
        };
        j < s.len() && digits_end(s, j) == s.len()
    } else {
        false
    }
}

/// Whether `s` from `a` on is a number body: digits, an optional point
/// with optional further digits, and an optional exponent; or a point,
/// at least one digit, and an optional exponent.
pub open spec fn number_from(s: Seq<char>, a: int) -> bool {
    let p = digits_end(s, a);
    if p > a {
        let q = if p < s.len() && s[p] == '.' {
            digits_end(s, p + 1)
        } else {
            p
        };
        exponent_from(s, q)
    } else {
        a + 2 <= s.len() && s[a] == '.' && {
            let d = digits_end(s, a + 1);
            d > a + 1 && exponent_from(s, d)
        }
    }
}

/// Whether `s` from `a` on is one of the words `inf`, `infinity` or
/// `nan`, matched case insensitively.
pub open spec fn special_from(s: Seq<char>, a: int) -> bool {
    ||| (s.len() - a == 3 && 0 <= a && (s[a] == 'i' || s[a] == 'I') && (s[a + 1] == 'n' || s[a + 1]
        == 'N') && (s[a + 2] == 'f' || s[a + 2] == 'F'))
    ||| (s.len() - a == 8 && 0 <= a && (s[a] == 'i' || s[a] == 'I') && (s[a + 1] == 'n' || s[a + 1]
        == 'N') && (s[a + 2] == 'f' || s[a + 2] == 'F') && (s[a + 3] == 'i' || s[a + 3] == 'I') && (
    s[a + 4] == 'n' || s[a + 4] == 'N') && (s[a + 5] == 'i' || s[a + 5] == 'I') && (s[a + 6] == 't'
        || s[a + 6] == 'T') && (s[a + 7] == 'y' || s[a + 7] == 'Y'))
    ||| (s.len() - a == 3 && 0 <= a && (s[a] == 'n' || s[a] == 'N') && (s[a + 1] == 'a' || s[a + 1]
        == 'A') && (s[a + 2] == 'n' || s[a + 2] == 'N'))
}

/// Whether `s` is a well-formed floating-point literal: an optional sign
/// followed by a special word or a number body.
pub open spec fn is_float_literal(s: Seq<char>) -> bool {
    let a: int = if s.len() > 0 && (s[0] == '+' || s[0] == '-') {
        1
    } else {
        0
    };
    special_from(s, a) || number_from(s, a)
}

fn scan_digits(s: &str, i: usize, n: usize) -> (r: usize)
    requires
        n == s@.len(),
        i <= n,
    ensures
        r as int == digits_end(s@, i as int),
        i <= r <= n,
    decreases n - i,
{
    if i < n {
        let c = s.get_char(i);
        let v = c as u32;
        if 48 <= v && v <= 57 {
            return scan_digits(s, i + 1, n);
        }
    }
    i
}

fn check_exponent(s: &str, i: usize, n: usize) -> (r: bool)
    requires
        n == s@.len(),
        i <= n,
    ensures
        r == exponent_from(s@, i as int),
{
    if i == n {
        return true;
    }
    let c = s.get_char(i);
    if c == 'e' || c == 'E' {
        let j = if i + 1 < n {
            let c2 = s.get_char(i + 1);
            if c2 == '+' || c2 == '-' {
                i + 2
            } else {
                i + 1
            }
        } else {
            i + 1
        };
        j < n && scan_digits(s, j, n) == n
    } else {
        false
    }
}

fn check_number(s: &str, a: usize, n: usize) -> (r: bool)
    requires
        n == s@.len(),
        a <= n,
    ensures
        r == number_from(s@, a as int),
{
    let p = scan_digits(s, a, n);
    if p > a {
        let q = if p < n {
            if s.get_char(p) == '.' {
                scan_digits(s, p + 1, n)
            } else {
                p
            }
        } else {
            p
        };
        check_exponent(s, q, n)
    } else if a < n && a + 1 < n {
        if s.get_char(a) == '.' {
            let d = scan_digits(s, a + 1, n);
            d > a + 1 && check_exponent(s, d, n)
        } else {
            false
        }
    } else {
        false
    }
}

fn check_special(s: &str, a: usize, n: usize) -> (r: bool)
    requires
        n == s@.len(),
        a <= n,
    ensures
        r == special_from(s@, a as int),
{
    if n - a == 3 {
        let c0 = s.get_char(a);
        let c1 = s.get_char(a + 1);
        let c2 = s.get_char(a + 2);
        ((c0 == 'i' || c0 == 'I') && (c1 == 'n' || c1 == 'N') && (c2 == 'f' || c2 == 'F')) || ((c0
            == 'n' || c0 == 'N') && (c1 == 'a' || c1 == 'A') && (c2 == 'n' || c2 == 'N'))
    } else if n - a == 8 {
        let c0 = s.get_char(a);
        let c1 = s.get_char(a + 1);
        let c2 = s.get_char(a + 2);
        let c3 = s.get_char(a + 3);
        let c4 = s.get_char(a + 4);
        let c5 = s.get_char(a + 5);
        let c6 = s.get_char(a + 6);
        let c7 = s.get_char(a + 7);
        (c0 == 'i' || c0 == 'I') && (c1 == 'n' || c1 == 'N') && (c2 == 'f' || c2 == 'F') && (c3
            == 'i' || c3 == 'I') && (c4 == 'n' || c4 == 'N') && (c5 == 'i' || c5 == 'I') && (c6
            == 't' || c6 == 'T') && (c7 == 'y' || c7 == 'Y')
    } else {
        false
    }
}

/// Checks whether `s` is a well-formed floating-point literal.
pub fn check_float_literal(s: &str) -> (r: bool)
    ensures
        r == is_float_literal(s@),
{
    let n = s.unicode_len();
    let a: usize = if n > 0 {
        let c = s.get_char(0);
        if c == '+' || c == '-' {
            1
        } else {
            0
        }
    } else {
        0
    };
    if check_special(s, a, n) {
        return true;
    }
    check_number(s, a, n)
}

/// Compares two string slices character by character.
pub fn str_eq(a: &str, b: &str) -> (r: bool)
    ensures
        r == (a@ == b@),
{
    let na = a.unicode_len();
    let nb = b.unicode_len();
    if na != nb {
        return false;
    }
    let mut i: usize = 0;
    while i < na
        invariant
            na == a@.len(),
            nb == b@.len(),
            na == nb,
            i <= na,
            forall|j: int| 0 <= j < i ==> a@[j] == b@[j],
        decreases na - i,
    {
        if a.get_char(i) != b.get_char(i) {
            return false;
        }
        i += 1;
    }
    proof {
        assert(a@ =~= b@);
    }
    true
}

} // verus!
