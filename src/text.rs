//! Reading the text that identifiers and numeric literals carry.
use vstd::prelude::*;

verus! {

broadcast use vstd::string::axiom_spec_iter;

/// The characters of `s`, in order.
pub fn chars_of(s: &String) -> (r: Vec<char>)
    ensures
        r@ == s@,
{
    let mut v: Vec<char> = Vec::new();
    for c in it: s.as_str().chars()
        invariant
            v@ == it.seq().take(it.index()),
    {
        v.push(c);
    }
    v
}


pub open spec fn is_digit(c: char) -> bool {
    '0' <= c <= '9'
}

pub open spec fn digit_value(c: char) -> int {
    (c as int) - ('0' as int)
}

/// Every character of `s` is an ASCII decimal digit.
pub open spec fn all_digits(s: Seq<char>) -> bool {
    forall|i: int| 0 <= i < s.len() ==> is_digit(#[trigger] s[i])
}

/// The number that the decimal digits `s` denote.
pub open spec fn decimal_value(s: Seq<char>) -> int
    decreases s.len(),
{
    if s.len() == 0 {
        0
    } else {
        decimal_value(s.drop_last()) * 10 + digit_value(s.last())
    }
}

/// The signed decimal integer that `s` is, when it is one and fits in `i64`:
/// an optional `+` or `-`, then one or more digits.
pub open spec fn integer_of(s: Seq<char>) -> Option<int> {
    let neg = s.len() > 0 && s[0] == '-';
    let signed = s.len() > 0 && (s[0] == '-' || s[0] == '+');
    let digits = if signed { s.drop_first() } else { s };
    if digits.len() == 0 || !all_digits(digits) {
        None
    } else {
        let v = if neg { -decimal_value(digits) } else { decimal_value(digits) };
        if i64::MIN <= v <= i64::MAX {
            Some(v)
        } else {
            None
        }
    }
}

proof fn lemma_decimal_monotone(s: Seq<char>, i: int)
    requires
        0 <= i <= s.len(),
        all_digits(s),
    ensures
        0 <= decimal_value(s.take(i)) <= decimal_value(s),
    decreases s.len() - i,
{
    if i < s.len() {
        lemma_decimal_monotone(s, i + 1);
        assert(s.take(i + 1).drop_last() == s.take(i));
    } else {
        assert(s.take(i) == s);
    }
    lemma_decimal_nonneg(s.take(i));
}

proof fn lemma_decimal_nonneg(s: Seq<char>)
    requires
        all_digits(s),
    ensures
        decimal_value(s) >= 0,
    decreases s.len(),
{
    if s.len() > 0 {
        lemma_decimal_nonneg(s.drop_last());
    }
}

/// Reads a signed decimal integer of the `i64` range.
pub fn parse_i64(s: &Vec<char>) -> (r: Option<i64>)
    ensures
        r matches Some(v) ==> integer_of(s@) == Some(v as int),
        r is None ==> integer_of(s@) is None,
{
    let n = s.len();
    let neg = n > 0 && s[0] == '-';
    let signed = n > 0 && (s[0] == '-' || s[0] == '+');
    let start: usize = if signed { 1 } else { 0 };
    let ghost digits = if signed { s@.drop_first() } else { s@ };
    if start == n {
        return None;
    }
    let limit: u64 = if neg { 9223372036854775808 } else { 9223372036854775807 };
    let mut acc: u64 = 0;
    let mut i: usize = start;
    while i < n
        invariant
            start <= i <= n,
            n == s.len(),
            digits == s@.subrange(start as int, n as int),
            digits == (if signed { s@.drop_first() } else { s@ }),
            signed == (s@.len() > 0 && (s@[0] == '-' || s@[0] == '+')),
            neg == (s@.len() > 0 && s@[0] == '-'),
            start == (if signed { 1usize } else { 0usize }),
            all_digits(digits.take(i - start)),
            acc as int == decimal_value(digits.take(i - start)),
            acc <= limit,
            9223372036854775807 <= limit <= 9223372036854775808,
            neg ==> limit == 9223372036854775808,
            !neg ==> limit == 9223372036854775807,
        decreases n - i,
    {
        let c = s[i];
        if !('0' <= c && c <= '9') {
            proof {
                assert(digits[i - start] == c);
                assert(!is_digit(digits[i - start]));

            }
            return None;
        }
        let d = (c as u64) - ('0' as u64);
        assert(digits[i - start] == c);
        assert(d <= 9);
        assert(digits.take(i - start + 1).drop_last() == digits.take(i - start));
        if acc > (limit - d) / 10 {
            proof {
                let t = digits.take(i - start + 1);
                assert(decimal_value(t) > limit) by (nonlinear_arith)
                    requires
                        decimal_value(t) == acc * 10 + d,
                        acc > (limit - d) / 10,
                        d <= 9,
                ;
                if all_digits(digits) {
                    lemma_decimal_monotone(digits, i - start + 1);
                }
            }
            return None;
        }
        assert(acc * 10 + d <= limit) by (nonlinear_arith)
            requires
                acc <= (limit - d) / 10,
                d <= 9,
                d <= limit,
        ;
        acc = acc * 10 + d;
        i = i + 1;
    }
    assert(digits.take(n - start) == digits);
    if neg {
        if acc == 9223372036854775808 {
            Some(i64::MIN)
        } else {
            Some(-(acc as i64))
        }
    } else {
        Some(acc as i64)
    }
}

/// The digits of a decimal number, with at most one decimal point, and at
/// least one digit.
pub open spec fn is_mantissa(s: Seq<char>) -> bool {
    &&& exists|i: int| 0 <= i < s.len() && is_digit(#[trigger] s[i])
    &&& forall|i: int| 0 <= i < s.len() ==> is_digit(#[trigger] s[i]) || s[i] == '.'
    &&& forall|i: int, j: int|
        0 <= i < j < s.len() && #[trigger] s[i] == '.' ==> #[trigger] s[j] != '.'
}

/// An exponent: `e` or `E`, an optional sign, and one or more digits.
pub open spec fn is_exponent(s: Seq<char>) -> bool {
    let d = if s.len() > 1 && (s[1] == '+' || s[1] == '-') { s.skip(2) } else { s.skip(1) };
    s.len() > 0 && (s[0] == 'e' || s[0] == 'E') && d.len() > 0 && all_digits(d)
}

/// The index of the first `e` or `E` of `s` from `i` on, or its length.
pub open spec fn exponent_start(s: Seq<char>, i: int) -> int
    decreases s.len() - i,
{
    if i < 0 || i >= s.len() {
        s.len() as int
    } else if s[i] == 'e' || s[i] == 'E' {
        i
    } else {
        exponent_start(s, i + 1)
    }
}

/// `s` is the word written `lower` in lowercase and `upper` in uppercase, in
/// any mix of cases.
pub open spec fn is_word(s: Seq<char>, lower: Seq<char>, upper: Seq<char>) -> bool {
    &&& s.len() == lower.len()
    &&& lower.len() == upper.len()
    &&& forall|i: int| 0 <= i < s.len() ==> #[trigger] s[i] == lower[i] || s[i] == upper[i]
}

/// Floating-point text as Rust's `f64` reads it: an optional sign, then
/// `inf`, `infinity` or `nan` in any case, or a decimal number with an
/// optional exponent.
pub open spec fn is_float_text(s: Seq<char>) -> bool {
    let r = if s.len() > 0 && (s[0] == '+' || s[0] == '-') { s.skip(1) } else { s };
    let e = exponent_start(r, 0);
    ||| is_word(r, "inf"@, "INF"@)
    ||| is_word(r, "infinity"@, "INFINITY"@)
    ||| is_word(r, "nan"@, "NAN"@)
    ||| is_mantissa(r.take(e)) && (e == r.len() || is_exponent(r.skip(e)))
}

/// The characters of `s` from `lo` up to `hi`.
fn slice_of(s: &Vec<char>, lo: usize, hi: usize) -> (r: Vec<char>)
    requires
        lo <= hi <= s.len(),
    ensures
        r@ == s@.subrange(lo as int, hi as int),
{
    let mut v: Vec<char> = Vec::new();
    let mut i = lo;
    while i < hi
        invariant
            lo <= i <= hi <= s.len(),
            v@ == s@.subrange(lo as int, i as int),
        decreases hi - i,
    {
        v.push(s[i]);
        i = i + 1;
        assert(v@ =~= s@.subrange(lo as int, i as int));
    }
    v
}

/// Whether `s` is the word `lower`/`upper` in any mix of cases.
fn check_word(s: &Vec<char>, lower: &str, upper: &str) -> (r: bool)
    ensures
        r == is_word(s@, lower@, upper@),
{
    let lw = chars_of(&lower.to_owned());
    let uw = chars_of(&upper.to_owned());
    if s.len() != lw.len() || lw.len() != uw.len() {
        return false;
    }
    let mut i: usize = 0;
    while i < s.len()
        invariant
            i <= s.len(),
            s.len() == lw.len(),
            lw.len() == uw.len(),
            lw@ == lower@,
            uw@ == upper@,
            forall|k: int| 0 <= k < i ==> #[trigger] s@[k] == lw@[k] || s@[k] == uw@[k],
        decreases s.len() - i,
    {
        if s[i] != lw[i] && s[i] != uw[i] {
            return false;
        }
        i = i + 1;
    }
    true
}

/// Whether `s` is an exponent.
fn check_exponent(s: &Vec<char>) -> (r: bool)
    ensures
        r == is_exponent(s@),
{
    if s.len() == 0 || !(s[0] == 'e' || s[0] == 'E') {
        return false;
    }
    let start: usize = if s.len() > 1 && (s[1] == '+' || s[1] == '-') { 2 } else { 1 };
    if start >= s.len() {
        return false;
    }
    let mut i = start;
    while i < s.len()
        invariant
            start <= i <= s.len(),
            start == (if s@.len() > 1 && (s@[1] == '+' || s@[1] == '-') { 2usize } else { 1usize }),
            forall|k: int| start <= k < i ==> is_digit(#[trigger] s@[k]),
        decreases s.len() - i,
    {
        if !('0' <= s[i] && s[i] <= '9') {
            assert(!is_digit(s@.skip(start as int)[i - start]));
            return false;
        }
        i = i + 1;
    }
    assert(all_digits(s@.skip(start as int)));
    true
}

/// Whether `s` is floating-point text.
pub fn check_float_text(s: &Vec<char>) -> (r: bool)
    ensures
        r == is_float_text(s@),
{
    let lo: usize = if s.len() > 0 && (s[0] == '+' || s[0] == '-') { 1 } else { 0 };
    let rest = slice_of(s, lo, s.len());
    assert(rest@ =~= (if s@.len() > 0 && (s@[0] == '+' || s@[0] == '-') { s@.skip(1) } else { s@ }));
    if check_word(&rest, "inf", "INF") || check_word(&rest, "infinity", "INFINITY") || check_word(
        &rest,
        "nan",
        "NAN",
    ) {
        return true;
    }
    let mut e: usize = 0;
    while e < rest.len() && !(rest[e] == 'e' || rest[e] == 'E')
        invariant
            e <= rest.len(),
            exponent_start(rest@, 0) == exponent_start(rest@, e as int),
        decreases rest.len() - e,
    {
        e = e + 1;
    }
    let mantissa = slice_of(&rest, 0, e);
    assert(mantissa@ =~= rest@.take(e as int));
    if !check_mantissa(&mantissa) {
        return false;
    }
    if e == rest.len() {
        return true;
    }
    let exponent = slice_of(&rest, e, rest.len());
    assert(exponent@ =~= rest@.skip(e as int));
    check_exponent(&exponent)
}

/// Whether `s` is a mantissa.
fn check_mantissa(s: &Vec<char>) -> (r: bool)
    ensures
        r == is_mantissa(s@),
{
    let mut seen_digit = false;
    let mut seen_point = false;
    let mut point: usize = 0;
    let mut i: usize = 0;
    while i < s.len()
        invariant
            i <= s.len(),
            seen_digit == exists|k: int| 0 <= k < i && is_digit(#[trigger] s@[k]),
            forall|k: int| 0 <= k < i ==> is_digit(#[trigger] s@[k]) || s@[k] == '.',
            seen_point ==> point < i && s@[point as int] == '.',
            !seen_point ==> forall|k: int| 0 <= k < i ==> #[trigger] s@[k] != '.',
            seen_point ==> forall|k: int| 0 <= k < i && k != point ==> #[trigger] s@[k] != '.',
        decreases s.len() - i,
    {
        let c = s[i];
        if '0' <= c && c <= '9' {
            seen_digit = true;
        } else if c == '.' {
            if seen_point {
                assert(!(forall|a: int, b: int|
                    0 <= a < b < s@.len() && #[trigger] s@[a] == '.' ==> #[trigger] s@[b] != '.'))
                    by {
                    assert(s@[point as int] == '.' && s@[i as int] == '.');
                }
                return false;
            }
            seen_point = true;
            point = i;
        } else {
            return false;
        }
        i = i + 1;
    }
    seen_digit
}

/// Whether `c` is an uppercase letter in Unicode's sense.
pub uninterp spec fn uppercase_letter(c: char) -> bool;

/// Relies on `char::is_uppercase`: whether the character has the Unicode
/// `Uppercase` property, which the ASCII letters `A` to `Z` have and `a` to
/// `z`, the digits and `_` do not.
#[verifier::external_body]
fn is_uppercase(c: char) -> (r: bool)
    ensures
        r == uppercase_letter(c),
        'A' <= c <= 'Z' ==> r,
        'a' <= c <= 'z' ==> !r,
        '0' <= c <= '9' ==> !r,
        c == '_' ==> !r,
{
    c.is_uppercase()
}

/// A name starts with an uppercase letter.
pub open spec fn uppercase_leading(s: Seq<char>) -> bool {
    s.len() > 0 && uppercase_letter(s[0])
}

/// Whether the name `s` starts with an uppercase letter.
pub fn starts_uppercase(s: &String) -> (r: bool)
    ensures
        r == uppercase_leading(s@),
{
    let cs = chars_of(s);
    if cs.len() == 0 {
        false
    } else {
        is_uppercase(cs[0])
    }
}

} // verus!
